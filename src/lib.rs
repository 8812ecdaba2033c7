//! Recurrent web-feed scraping engine: the item model, the merge of fresh
//! items into a feed's cache, the extractor protocol and the scheduling
//! decisions, each with its contract.

pub mod item;
pub mod merge;
pub mod channel;
pub mod options;
pub mod errors;
pub mod refresh;
pub mod schedule;
pub mod locks;
