use vstd::prelude::*;

verus! {

/// A category of an item or a channel.
#[derive(Clone, Debug)]
pub struct PseudoCategory {
    pub name: String,
    pub domain: Option<String>,
}

/// A media object attached to an item.
#[derive(Clone, Debug)]
pub struct PseudoEnclosure {
    pub url: String,
    pub length: String,
    pub mime_type: String,
}

/// A unique identifier of an item.
#[derive(Clone, Debug)]
pub struct PseudoGuid {
    pub value: String,
    pub permalink: bool,
}

/// The channel an item came from.
#[derive(Clone, Debug)]
pub struct PseudoSource {
    pub url: String,
    pub title: Option<String>,
}

/// One entry of a feed.
#[derive(Clone, Debug, Default)]
pub struct PseudoItem {
    pub title: Option<String>,
    pub link: Option<String>,
    pub description: Option<String>,
    pub author: Option<String>,
    pub categories: Option<Vec<PseudoCategory>>,
    pub comments: Option<String>,
    pub enclosure: Option<PseudoEnclosure>,
    pub guid: Option<PseudoGuid>,
    pub pub_date: Option<String>,
    pub timestamp: Option<u64>,
    pub source: Option<PseudoSource>,
    pub content: Option<String>,
}

/// The items of a feed's cache, most recent first when the feed is sorted.
#[derive(Clone, Debug, Default)]
pub struct PseudoItemCache(pub Vec<PseudoItem>);

/// The text is present and not empty.
pub open spec fn filled(o: Option<String>) -> bool {
    o is Some && o->0@.len() > 0
}

/// Two items are the same when both carry the same non-empty link, or both
/// carry the same non-empty title.
pub open spec fn same_item(a: PseudoItem, b: PseudoItem) -> bool {
    (filled(a.link) && filled(b.link) && a.link->0@ == b.link->0@) || (filled(a.title)
        && filled(b.title) && a.title->0@ == b.title->0@)
}

/// Equal category lists, compared by their contents.
pub open spec fn same_categories(a: Option<Vec<PseudoCategory>>, b: Option<Vec<PseudoCategory>>) -> bool {
    match (a, b) {
        (None, None) => true,
        (Some(x), Some(y)) => x@ == y@,
        _ => false,
    }
}

/// `r` holds every field of `i` but the content, which it lacks.
pub open spec fn is_stripped(r: PseudoItem, i: PseudoItem) -> bool {
    &&& r.title == i.title
    &&& r.link == i.link
    &&& r.description == i.description
    &&& r.author == i.author
    &&& same_categories(r.categories, i.categories)
    &&& r.comments == i.comments
    &&& r.enclosure == i.enclosure
    &&& r.guid == i.guid
    &&& r.pub_date == i.pub_date
    &&& r.timestamp == i.timestamp
    &&& r.source == i.source
    &&& r.content is None
}

/// Every item of `r` is the item of `s` at the same place, without its content.
pub open spec fn all_stripped(r: Seq<PseudoItem>, s: Seq<PseudoItem>) -> bool {
    r.len() == s.len() && forall|k: int| 0 <= k < s.len() ==> #[trigger] is_stripped(r[k], s[k])
}

fn filled_text(o: &Option<String>) -> (r: bool)
    ensures
        r == filled(*o),
{
    match o {
        Some(s) => !s.as_str().is_empty(),
        None => false,
    }
}

fn copy_text(o: &Option<String>) -> (r: Option<String>)
    ensures
        r == *o,
{
    match o {
        Some(s) => Some(s.clone()),
        None => None,
    }
}

impl PseudoCategory {
    fn copy(&self) -> (r: PseudoCategory)
        ensures
            r == *self,
    {
        PseudoCategory { name: self.name.clone(), domain: copy_text(&self.domain) }
    }
}

fn copy_categories(o: &Option<Vec<PseudoCategory>>) -> (r: Option<Vec<PseudoCategory>>)
    ensures
        same_categories(r, *o),
{
    match o {
        None => None,
        Some(v) => {
            let mut out: Vec<PseudoCategory> = Vec::new();
            let mut k: usize = 0;
            while k < v.len()
                invariant
                    k <= v@.len(),
                    out@ == v@.subrange(0, k as int),
                decreases v@.len() - k,
            {
                out.push(v[k].copy());
                k = k + 1;
                assert(out@ =~= v@.subrange(0, k as int));
            }
            assert(out@ =~= v@);
            Some(out)
        },
    }
}

impl PseudoItem {
    /// Whether `self` and `other` stand for the same entry: same non-empty
    /// link, or same non-empty title.
    pub fn same_as(&self, other: &PseudoItem) -> (r: bool)
        ensures
            r == same_item(*self, *other),
    {
        let by_link = filled_text(&self.link) && filled_text(&other.link) && match (
            &self.link,
            &other.link,
        ) {
            (Some(a), Some(b)) => a.eq(b),
            _ => false,
        };
        if by_link {
            return true;
        }
        filled_text(&self.title) && filled_text(&other.title) && match (&self.title, &other.title) {
            (Some(a), Some(b)) => a.eq(b),
            _ => false,
        }
    }

    /// A copy of the item without its content, as handed back to the
    /// extractor among the items it should not emit again.
    pub fn stripped(&self) -> (r: PseudoItem)
        ensures
            is_stripped(r, *self),
    {
        PseudoItem {
            title: copy_text(&self.title),
            link: copy_text(&self.link),
            description: copy_text(&self.description),
            author: copy_text(&self.author),
            categories: copy_categories(&self.categories),
            comments: copy_text(&self.comments),
            enclosure: match &self.enclosure {
                Some(e) => Some(
                    PseudoEnclosure {
                        url: e.url.clone(),
                        length: e.length.clone(),
                        mime_type: e.mime_type.clone(),
                    },
                ),
                None => None,
            },
            guid: match &self.guid {
                Some(g) => Some(PseudoGuid { value: g.value.clone(), permalink: g.permalink }),
                None => None,
            },
            pub_date: copy_text(&self.pub_date),
            timestamp: self.timestamp,
            source: match &self.source {
                Some(s) => Some(PseudoSource { url: s.url.clone(), title: copy_text(&s.title) }),
                None => None,
            },
            content: None,
        }
    }
}

/// The items of `s`, each without its content, in order.
pub fn strip_all(s: &Vec<PseudoItem>) -> (r: Vec<PseudoItem>)
    ensures
        all_stripped(r@, s@),
{
    let mut out: Vec<PseudoItem> = Vec::new();
    let mut k: usize = 0;
    while k < s.len()
        invariant
            k <= s@.len(),
            all_stripped(out@, s@.subrange(0, k as int)),
        decreases s@.len() - k,
    {
        out.push(s[k].stripped());
        k = k + 1;
        assert(all_stripped(out@, s@.subrange(0, k as int))) by {
            assert forall|j: int| 0 <= j < k implies #[trigger] is_stripped(out@[j], s@.subrange(0, k as int)[j]) by {
                if j < k - 1 {
                    assert(is_stripped(out@[j], s@.subrange(0, k - 1)[j]));
                }
            }
        }
    }
    assert(s@.subrange(0, s@.len() as int) =~= s@);
    out
}

} // verus!
