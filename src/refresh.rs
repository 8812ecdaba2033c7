use vstd::prelude::*;

use crate::errors::Error;
use crate::item::{all_stripped, strip_all, PseudoItem};
use crate::merge::{merge_items, merged};
use crate::options::{quota, FeedOption, FetchedMeta};

verus! {

/// What the extractor is handed for one invocation.
#[derive(Debug)]
pub struct ItemizerArg {
    /// The URL to extract from.
    pub url: String,
    /// The body fetched from `url`, where the engine fetches.
    pub webstr: Option<String>,
    /// Items the extractor should not emit again, without their content.
    pub preexists: Vec<PseudoItem>,
    /// Items still wanted in this refresh.
    pub length_left: u32,
    /// The feed's configuration.
    pub feed: FeedOption,
}

/// The extractor's reply.
#[derive(Debug)]
pub struct ItemizerRes {
    /// A URL to continue from, where more items may be had.
    pub continuation: Option<String>,
    /// The items extracted.
    pub items: Vec<PseudoItem>,
}

/// How one extractor invocation ended.
#[derive(Debug)]
pub enum Outcome {
    Reply(ItemizerRes),
    Failed(Error),
}

/// What the refresh asks of its caller next.
#[derive(Debug)]
pub enum Step {
    /// Run the extractor on `url`, after fetching its body where `fetch_body`.
    Invoke { url: String, fetch_body: bool },
    /// The extractor is done with; merge the items.
    Finished,
}

/// `want - have`, or none when `have` reaches `want`, within `u32`.
pub open spec fn items_left(want: int, have: int) -> int {
    let d = if want > have { want - have } else { 0 };
    if d > u32::MAX { u32::MAX as int } else { d }
}

/// Where a refresh stands: items gathered by the current attempt, attempts
/// begun, and the URL of the invocation awaited.
pub ghost struct Progress {
    pub have: nat,
    pub attempt: nat,
    pub pending: Option<String>,
}

/// Where a refresh stands after the pending invocation ended with `o`.
pub open spec fn progress_after(p: Progress, origin: String, max_length: nat, max_retries: nat, o: Outcome) -> Progress {
    match o {
        Outcome::Reply(res) => {
            let have = p.have + res.items@.len();
            Progress {
                have,
                attempt: p.attempt,
                pending: if have >= max_length { None } else { res.continuation },
            }
        },
        Outcome::Failed(_) => if p.attempt < max_retries {
            Progress { have: 0, attempt: p.attempt + 1, pending: Some(origin) }
        } else {
            Progress { have: 0, attempt: p.attempt, pending: None }
        },
    }
}

/// How many invocations a refresh at `p` asks for when their outcomes are
/// `outs`, in order, until it finishes or the outcomes run out.
pub open spec fn invocations(p: Progress, origin: String, max_length: nat, max_retries: nat, outs: Seq<Outcome>) -> nat
    decreases outs.len(),
{
    if p.pending is None || outs.len() == 0 {
        0
    } else {
        1 + invocations(
            progress_after(p, origin, max_length, max_retries, outs[0]),
            origin,
            max_length,
            max_retries,
            outs.drop_first(),
        )
    }
}

/// The outcome is a reply that names a continuation.
pub open spec fn continues(o: Outcome) -> bool {
    o matches Outcome::Reply(res) && res.continuation is Some
}

/// The outcome is a reply with at least one item.
pub open spec fn yields(o: Outcome) -> bool {
    o matches Outcome::Reply(res) && res.items@.len() > 0
}

/// Where the replies name no continuation, a refresh that has begun attempt
/// `p.attempt` invokes the extractor at most once per attempt left: at most
/// `max_retries` times from the first attempt on.
pub proof fn law_retry_bound(p: Progress, origin: String, max_length: nat, max_retries: nat, outs: Seq<Outcome>)
    requires
        1 <= p.attempt <= max_retries,
        forall|k: int| 0 <= k < outs.len() ==> !continues(#[trigger] outs[k]),
    ensures
        invocations(p, origin, max_length, max_retries, outs) <= max_retries - p.attempt + 1,
    decreases outs.len(),
{
    if p.pending is Some && outs.len() > 0 {
        let q = progress_after(p, origin, max_length, max_retries, outs[0]);
        assert(!continues(outs[0]));
        let rest = outs.drop_first();
        assert forall|k: int| 0 <= k < rest.len() implies !continues(#[trigger] rest[k]) by {
            assert(rest[k] == outs[k + 1]);
        }
        if q.pending is Some {
            law_retry_bound(q, origin, max_length, max_retries, rest);
        } else {
            assert(invocations(q, origin, max_length, max_retries, rest) == 0);
        }
        assert(invocations(p, origin, max_length, max_retries, outs) == 1 + invocations(
            q,
            origin,
            max_length,
            max_retries,
            rest,
        ));
    }
}

/// Within one attempt, the extractor is invoked again only on a
/// continuation while fewer than `max_length` items are gathered: where
/// every reply brings an item and none fails, a refresh that has gathered
/// `p.have` items invokes it at most `max_length - p.have` times (once, where
/// the cap is already reached).
pub proof fn law_continuation_cap(
    p: Progress,
    origin: String,
    max_length: nat,
    max_retries: nat,
    outs: Seq<Outcome>,
)
    requires
        forall|k: int| 0 <= k < outs.len() ==> yields(#[trigger] outs[k]),
    ensures
        p.have < max_length ==> invocations(p, origin, max_length, max_retries, outs) <= max_length - p.have,
        p.have >= max_length ==> invocations(p, origin, max_length, max_retries, outs) <= 1,
    decreases outs.len(),
{
    if p.pending is Some && outs.len() > 0 {
        let q = progress_after(p, origin, max_length, max_retries, outs[0]);
        assert(yields(outs[0]));
        let rest = outs.drop_first();
        assert forall|k: int| 0 <= k < rest.len() implies yields(#[trigger] rest[k]) by {
            assert(rest[k] == outs[k + 1]);
        }
        law_continuation_cap(q, origin, max_length, max_retries, rest);
    }
}

/// One refresh of a feed: attempts of the extractor, each following
/// continuations until the cap is reached, and retried on failure.
#[derive(Debug)]
pub struct Refresh {
    pub origin: String,
    pub fetch: bool,
    pub max_length: usize,
    /// Items asked for in this refresh.
    pub fetch_length: usize,
    pub max_retries: u16,
    /// Attempts begun so far.
    pub attempt: u16,
    /// The cache before this refresh.
    pub existing: Vec<PseudoItem>,
    /// Items gathered by the current attempt.
    pub items: Vec<PseudoItem>,
    /// The URL of the invocation awaited, if any.
    pub pending: Option<String>,
}

impl Refresh {
    pub open spec fn progress(&self) -> Progress {
        Progress { have: self.items@.len(), attempt: self.attempt as nat, pending: self.pending }
    }

    pub open spec fn wf(&self) -> bool {
        &&& self.attempt <= self.max_retries
        &&& self.pending is Some ==> self.attempt >= 1
    }

    /// Prepares a refresh of `feed` at `now`: the quota follows from the time
    /// of the last refresh, and the first attempt starts at the origin unless
    /// no attempt is allowed.
    pub fn new(feed: &FeedOption, existing: Vec<PseudoItem>, meta: &FetchedMeta, now: u64, max_retries: u16) -> (r:
        Refresh)
        requires
            feed.interval > 0,
        ensures
            r.wf(),
            r.origin == feed.origin,
            r.fetch == feed.fetch,
            r.max_length == feed.max_length,
            r.fetch_length as int == quota(
                now as int,
                meta.last_fetch as int,
                feed.interval as int,
                feed.fetch_length as int,
                feed.max_length as int,
            ),
            r.max_retries == max_retries,
            r.existing == existing,
            r.items@ == Seq::<PseudoItem>::empty(),
            max_retries > 0 ==> r.attempt == 1 && r.pending == Some(feed.origin),
            max_retries == 0 ==> r.attempt == 0 && r.pending is None,
    {
        let fetch_length = feed.effective_fetch_length(meta, now);
        let pending = if max_retries > 0 {
            Some(feed.origin.clone())
        } else {
            None
        };
        Refresh {
            origin: feed.origin.clone(),
            fetch: feed.fetch,
            max_length: feed.max_length,
            fetch_length,
            max_retries,
            attempt: if max_retries > 0 { 1 } else { 0 },
            existing,
            items: Vec::new(),
            pending,
        }
    }

    /// The step awaited: the pending invocation, or the end.
    pub fn step(&self) -> (r: Step)
        ensures
            self.pending is None ==> r is Finished,
            self.pending is Some ==> r == (Step::Invoke { url: self.pending->0, fetch_body: self.fetch }),
    {
        match &self.pending {
            Some(u) => Step::Invoke { url: u.clone(), fetch_body: self.fetch },
            None => Step::Finished,
        }
    }

    /// The extractor's argument for the pending invocation, with `webstr` as
    /// the fetched body: the cached items and those gathered so far, without
    /// their content, and the number of items still wanted.
    pub fn argument(&self, feed: FeedOption, webstr: Option<String>) -> (r: ItemizerArg)
        requires
            self.pending is Some,
        ensures
            r.url == self.pending->0,
            r.webstr == webstr,
            all_stripped(r.preexists@, self.existing@ + self.items@),
            r.length_left as int == items_left(self.fetch_length as int, self.items@.len() as int),
            r.feed == feed,
    {
        let mut preexists = strip_all(&self.existing);
        let mut gathered = strip_all(&self.items);
        let ghost a = preexists@;
        let ghost b = gathered@;
        preexists.append(&mut gathered);
        proof {
            let s = self.existing@ + self.items@;
            assert forall|k: int| 0 <= k < s.len() implies #[trigger] crate::item::is_stripped(
                preexists@[k],
                s[k],
            ) by {
                if k < a.len() {
                    assert(crate::item::is_stripped(a[k], self.existing@[k]));
                } else {
                    assert(crate::item::is_stripped(b[k - a.len()], self.items@[k - a.len()]));
                }
            }
        }
        let left: usize = if self.fetch_length > self.items.len() {
            self.fetch_length - self.items.len()
        } else {
            0
        };
        let length_left: u32 = if left > u32::MAX as usize {
            u32::MAX
        } else {
            left as u32
        };
        let url = match &self.pending {
            Some(u) => u.clone(),
            None => String::new(),
        };
        ItemizerArg { url, webstr, preexists, length_left, feed }
    }

    /// Takes the outcome of the pending invocation. A reply adds its items;
    /// its continuation is followed while fewer than `max_length` items are
    /// gathered. A failure drops the attempt's items and begins the next
    /// attempt at the origin, while fewer than `max_retries` were begun.
    pub fn advance(&mut self, outcome: Outcome) -> (r: Step)
        requires
            old(self).wf(),
            old(self).pending is Some,
        ensures
            final(self).wf(),
            final(self).origin == old(self).origin,
            final(self).fetch == old(self).fetch,
            final(self).max_length == old(self).max_length,
            final(self).fetch_length == old(self).fetch_length,
            final(self).max_retries == old(self).max_retries,
            final(self).existing == old(self).existing,
            r == final(self).step_spec(),
            final(self).progress() == progress_after(
                old(self).progress(),
                old(self).origin,
                old(self).max_length as nat,
                old(self).max_retries as nat,
                outcome,
            ),
            match outcome {
                Outcome::Reply(res) => {
                    &&& final(self).items@ == old(self).items@ + res.items@
                    &&& final(self).attempt == old(self).attempt
                    &&& final(self).pending == if final(self).items@.len() >= old(self).max_length {
                        None
                    } else {
                        res.continuation
                    }
                },
                Outcome::Failed(_) => {
                    &&& final(self).items@ == Seq::<PseudoItem>::empty()
                    &&& old(self).attempt < old(self).max_retries ==> final(self).attempt == old(
                        self,
                    ).attempt + 1 && final(self).pending == Some(old(self).origin)
                    &&& old(self).attempt >= old(self).max_retries ==> final(self).attempt == old(
                        self,
                    ).attempt && final(self).pending is None
                },
            },
    {
        match outcome {
            Outcome::Reply(res) => {
                let mut more = res.items;
                self.items.append(&mut more);
                if self.items.len() >= self.max_length {
                    self.pending = None;
                } else {
                    self.pending = res.continuation;
                }
            },
            Outcome::Failed(_) => {
                self.items.clear();
                if self.attempt < self.max_retries {
                    self.attempt = self.attempt + 1;
                    self.pending = Some(self.origin.clone());
                } else {
                    self.pending = None;
                }
            },
        }
        self.step()
    }

    pub open spec fn step_spec(&self) -> Step {
        match self.pending {
            Some(u) => Step::Invoke { url: u, fetch_body: self.fetch },
            None => Step::Finished,
        }
    }

    /// The cache after this refresh, for a feed sorted or not.
    pub fn finish(self, sort: bool) -> (r: Vec<PseudoItem>)
        ensures
            r@ == merged(self.items@, self.existing@, sort, self.max_length as nat),
    {
        merge_items(self.items, self.existing, sort, self.max_length)
    }
}

} // verus!
