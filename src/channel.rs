use vstd::prelude::*;

use crate::item::{PseudoCategory, PseudoItem};

verus! {

/// A cloud endpoint of a channel.
#[derive(Clone, Debug)]
pub struct PseudoCloud {
    pub domain: String,
    pub port: String,
    pub path: String,
    pub register_procedure: String,
    pub protocol: String,
}

/// A channel's image.
#[derive(Clone, Debug)]
pub struct PseudoImage {
    pub url: String,
    pub title: String,
    pub link: String,
    pub width: Option<String>,
    pub height: Option<String>,
    pub description: Option<String>,
}

/// A channel's text input box.
#[derive(Clone, Debug)]
pub struct PseudoTextInput {
    pub title: String,
    pub description: String,
    pub name: String,
    pub link: String,
}

/// The metadata of a feed's channel, and its items.
#[derive(Clone, Debug, Default)]
pub struct PseudoChannel {
    pub title: String,
    pub link: String,
    pub description: String,
    pub language: Option<String>,
    pub copyright: Option<String>,
    pub managing_editor: Option<String>,
    pub webmaster: Option<String>,
    pub pub_date: Option<String>,
    pub last_build_date: Option<String>,
    pub categories: Option<Vec<PseudoCategory>>,
    pub generator: Option<String>,
    pub docs: Option<String>,
    pub cloud: Option<PseudoCloud>,
    pub rating: Option<String>,
    pub ttl: Option<String>,
    pub image: Option<PseudoImage>,
    pub text_input: Option<PseudoTextInput>,
    pub skip_hours: Option<Vec<String>>,
    pub skip_days: Option<Vec<String>>,
    pub items: Option<Vec<PseudoItem>>,
}

/// The `generator` tag of a rendered feed: the engine's identifier, followed
/// by ` with ` and the channel's own generator where it names one.
pub open spec fn generator_text(ident: Seq<char>, generator: Option<String>) -> Seq<char> {
    match generator {
        Some(g) => ident + " with "@ + g@,
        None => ident,
    }
}

/// Relies on `String::push_str`: appends the text to the string.
#[verifier::external_body]
fn append_text(s: &mut String, t: &str)
    ensures
        final(s)@ == old(s)@ + t@,
{
    s.push_str(t)
}

impl PseudoChannel {
    /// The channel with `items` as its items; every other field is kept.
    pub fn with_items(self, items: Vec<PseudoItem>) -> (r: PseudoChannel)
        ensures
            r == (PseudoChannel { items: Some(items), ..self }),
    {
        PseudoChannel { items: Some(items), ..self }
    }

    /// The text of the rendered feed's `generator` tag for engine identifier
    /// `ident`.
    pub fn generator_tag(&self, ident: &str) -> (r: String)
        ensures
            r@ == generator_text(ident@, self.generator),
    {
        let mut r = ident.to_owned();
        match &self.generator {
            Some(g) => {
                proof {
                    reveal_strlit(" with ");
                }
                append_text(&mut r, " with ");
                append_text(&mut r, g.as_str());
            },
            None => {},
        }
        r
    }
}

} // verus!
