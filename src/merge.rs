use vstd::prelude::*;

use crate::item::PseudoItem;

verus! {

/// The unix seconds that an RFC-2822 date string stands for, or `None`
/// when the text is no such date.
pub uninterp spec fn rfc2822_seconds(s: Seq<char>) -> Option<u64>;

/// Relies on chrono's `DateTime::parse_from_rfc2822` and
/// `DateTime::timestamp`: the result depends on the text alone.
#[verifier::external_body]
fn parse_rfc2822(s: &String) -> (r: Option<u64>)
    ensures
        r == rfc2822_seconds(s@),
{
    match chrono::DateTime::parse_from_rfc2822(s.as_str()) {
        Ok(date) => Some(date.timestamp() as u64),
        Err(_) => None,
    }
}

/// The item with `parsed` as its timestamp, where it had none, carries a
/// publication date, and that date parsed.
pub open spec fn stamped(i: PseudoItem, parsed: Option<u64>) -> PseudoItem {
    if i.timestamp is None && i.pub_date is Some && parsed is Some {
        PseudoItem { timestamp: parsed, ..i }
    } else {
        i
    }
}

/// The item with the timestamp derived from its publication date, where it
/// had none.
pub open spec fn derived(i: PseudoItem) -> PseudoItem {
    match i.pub_date {
        Some(d) => stamped(i, rfc2822_seconds(d@)),
        None => i,
    }
}

/// Where an item stands when sorting by time: an absent timestamp is the
/// smallest.
pub open spec fn stamp_key(t: Option<u64>) -> int {
    match t {
        Some(v) => v as int,
        None => -1,
    }
}

pub open spec fn key(i: PseudoItem) -> int {
    stamp_key(i.timestamp)
}

/// `x` placed into `s` after every item whose key is at least its own, up to
/// the first one whose key is smaller.
pub open spec fn insert_desc(s: Seq<PseudoItem>, x: PseudoItem) -> Seq<PseudoItem>
    decreases s.len(),
{
    if s.len() == 0 {
        seq![x]
    } else if key(s[0]) < key(x) {
        seq![x] + s
    } else {
        seq![s[0]] + insert_desc(s.drop_first(), x)
    }
}

/// `s` sorted by descending timestamp; items of equal key keep their order.
pub open spec fn sort_desc(s: Seq<PseudoItem>) -> Seq<PseudoItem>
    decreases s.len(),
{
    if s.len() == 0 {
        s
    } else {
        insert_desc(sort_desc(s.drop_last()), s.last())
    }
}

/// No item is followed by one with a later timestamp.
pub open spec fn sorted_desc(s: Seq<PseudoItem>) -> bool {
    forall|a: int, b: int| #![trigger s[a], s[b]] 0 <= a < b < s.len() ==> key(s[a]) >= key(s[b])
}

/// Fresh items, each with its derived timestamp, ahead of the cached ones.
pub open spec fn combined(fresh: Seq<PseudoItem>, existing: Seq<PseudoItem>) -> Seq<PseudoItem> {
    fresh.map_values(|i: PseudoItem| derived(i)) + existing
}

/// The first `n` items of `s`, or all of them.
pub open spec fn capped(s: Seq<PseudoItem>, n: nat) -> Seq<PseudoItem> {
    if s.len() > n {
        s.subrange(0, n as int)
    } else {
        s
    }
}

/// The cache after a refresh: fresh items ahead of the old ones, sorted when
/// asked, cut to `max_length`.
pub open spec fn merged(fresh: Seq<PseudoItem>, existing: Seq<PseudoItem>, sort: bool, max_length: nat) -> Seq<
    PseudoItem,
> {
    let all = combined(fresh, existing);
    capped(if sort { sort_desc(all) } else { all }, max_length)
}

/// Sets the timestamp that `parsed` gives, where the item has none yet and
/// carries a publication date.
pub fn with_timestamp(item: PseudoItem, parsed: Option<u64>) -> (r: PseudoItem)
    ensures
        r == stamped(item, parsed),
{
    let mut item = item;
    if item.timestamp.is_none() && item.pub_date.is_some() && parsed.is_some() {
        item.timestamp = parsed;
    }
    item
}

/// Derives the item's timestamp from its RFC-2822 publication date, where it
/// has none.
pub fn derive_timestamp(item: PseudoItem) -> (r: PseudoItem)
    ensures
        r == derived(item),
{
    if item.timestamp.is_some() {
        return item;
    }
    let parsed = match &item.pub_date {
        Some(d) => parse_rfc2822(d),
        None => None,
    };
    with_timestamp(item, parsed)
}

fn key_less(a: &Option<u64>, b: &Option<u64>) -> (r: bool)
    ensures
        r == (stamp_key(*a) < stamp_key(*b)),
{
    match (a, b) {
        (_, None) => false,
        (None, Some(_)) => true,
        (Some(x), Some(y)) => *x < *y,
    }
}

proof fn lemma_insert_at(s: Seq<PseudoItem>, x: PseudoItem, i: int)
    requires
        0 <= i <= s.len(),
        forall|j: int| 0 <= j < i ==> key(#[trigger] s[j]) >= key(x),
        i < s.len() ==> key(s[i]) < key(x),
    ensures
        insert_desc(s, x) == s.insert(i, x),
    decreases s.len(),
{
    if s.len() == 0 {
        assert(seq![x] =~= s.insert(i, x));
    } else if i == 0 {
        assert(seq![x] + s =~= s.insert(0, x));
    } else {
        let t = s.drop_first();
        assert forall|j: int| 0 <= j < i - 1 implies key(#[trigger] t[j]) >= key(x) by {
            assert(t[j] == s[j + 1]);
        }
        lemma_insert_at(t, x, i - 1);
        assert(seq![s[0]] + t.insert(i - 1, x) =~= s.insert(i, x));
    }
}

proof fn lemma_insert_items(s: Seq<PseudoItem>, x: PseudoItem)
    ensures
        insert_desc(s, x).len() == s.len() + 1,
        forall|y: PseudoItem| #[trigger] insert_desc(s, x).contains(y) <==> (s.contains(y) || y == x),
    decreases s.len(),
{
    if s.len() == 0 {
        assert(insert_desc(s, x)[0] == x);
    } else if key(s[0]) < key(x) {
        let r = seq![x] + s;
        assert forall|y: PseudoItem| r.contains(y) <==> (s.contains(y) || y == x) by {
            if s.contains(y) {
                let j = choose|j: int| 0 <= j < s.len() && s[j] == y;
                assert(r[j + 1] == y);
            }
            if y == x {
                assert(r[0] == y);
            }
            if r.contains(y) && y != x {
                let j = choose|j: int| 0 <= j < r.len() && r[j] == y;
                assert(s[j - 1] == y);
            }
        }
    } else {
        let t = s.drop_first();
        lemma_insert_items(t, x);
        let r = seq![s[0]] + insert_desc(t, x);
        assert forall|y: PseudoItem| r.contains(y) <==> (s.contains(y) || y == x) by {
            if s.contains(y) {
                let j = choose|j: int| 0 <= j < s.len() && s[j] == y;
                if j == 0 {
                    assert(r[0] == y);
                } else {
                    assert(t[j - 1] == y);
                    assert(insert_desc(t, x).contains(y));
                    let k = choose|k: int| 0 <= k < insert_desc(t, x).len() && insert_desc(t, x)[k] == y;
                    assert(r[k + 1] == y);
                }
            }
            if y == x {
                assert(insert_desc(t, x).contains(y));
                let k = choose|k: int| 0 <= k < insert_desc(t, x).len() && insert_desc(t, x)[k] == y;
                assert(r[k + 1] == y);
            }
            if r.contains(y) && y != x {
                let j = choose|j: int| 0 <= j < r.len() && r[j] == y;
                if j == 0 {
                    assert(s[0] == y);
                } else {
                    assert(insert_desc(t, x)[j - 1] == y);
                    assert(insert_desc(t, x).contains(y));
                    let k = choose|k: int| 0 <= k < t.len() && t[k] == y;
                    assert(s[k + 1] == y);
                }
            }
        }
    }
}

proof fn lemma_insert_sorted(s: Seq<PseudoItem>, x: PseudoItem)
    requires
        sorted_desc(s),
    ensures
        sorted_desc(insert_desc(s, x)),
    decreases s.len(),
{
    if s.len() == 0 {
    } else if key(s[0]) < key(x) {
        let r = seq![x] + s;
        assert forall|a: int, b: int| #![trigger r[a], r[b]] 0 <= a < b < r.len() implies key(r[a]) >= key(r[b]) by {
            if a == 0 {
                assert(key(s[0]) >= key(s[b - 1]) || b == 1);
            } else {
                assert(r[a] == s[a - 1] && r[b] == s[b - 1]);
            }
        }
    } else {
        let t = s.drop_first();
        assert(sorted_desc(t)) by {
            assert forall|a: int, b: int| #![trigger t[a], t[b]] 0 <= a < b < t.len() implies key(t[a]) >= key(t[b]) by {
                assert(t[a] == s[a + 1] && t[b] == s[b + 1]);
            }
        }
        lemma_insert_sorted(t, x);
        lemma_insert_items(t, x);
        let it = insert_desc(t, x);
        let r = seq![s[0]] + it;
        assert forall|a: int, b: int| #![trigger r[a], r[b]] 0 <= a < b < r.len() implies key(r[a]) >= key(r[b]) by {
            if a == 0 {
                assert(it.contains(r[b])) by {
                    assert(it[b - 1] == r[b]);
                }
                if r[b] != x {
                    assert(t.contains(r[b]));
                    let k = choose|k: int| 0 <= k < t.len() && t[k] == r[b];
                    assert(s[k + 1] == r[b]);
                }
            } else {
                assert(r[a] == it[a - 1] && r[b] == it[b - 1]);
            }
        }
    }
}

proof fn lemma_sort_items(s: Seq<PseudoItem>)
    ensures
        sort_desc(s).len() == s.len(),
        sorted_desc(sort_desc(s)),
        forall|y: PseudoItem| #[trigger] sort_desc(s).contains(y) <==> s.contains(y),
    decreases s.len(),
{
    if s.len() > 0 {
        let p = s.drop_last();
        lemma_sort_items(p);
        lemma_insert_items(sort_desc(p), s.last());
        lemma_insert_sorted(sort_desc(p), s.last());
        assert forall|y: PseudoItem| p.contains(y) || y == s.last() <==> s.contains(y) by {
            if p.contains(y) {
                let k = choose|k: int| 0 <= k < p.len() && p[k] == y;
                assert(s[k] == y);
            }
            if y == s.last() {
                assert(s[s.len() - 1] == y);
            }
            if s.contains(y) {
                let k = choose|k: int| 0 <= k < s.len() && s[k] == y;
                if k < s.len() - 1 {
                    assert(p[k] == y);
                }
            }
        }
    }
}

proof fn lemma_sort_of_sorted(s: Seq<PseudoItem>)
    requires
        sorted_desc(s),
    ensures
        sort_desc(s) == s,
    decreases s.len(),
{
    if s.len() > 0 {
        let p = s.drop_last();
        assert(sorted_desc(p)) by {
            assert forall|a: int, b: int| #![trigger p[a], p[b]] 0 <= a < b < p.len() implies key(p[a]) >= key(p[b]) by {
                assert(p[a] == s[a] && p[b] == s[b]);
            }
        }
        lemma_sort_of_sorted(p);
        assert forall|j: int| 0 <= j < p.len() implies key(#[trigger] p[j]) >= key(s.last()) by {
            assert(p[j] == s[j] && s[s.len() - 1] == s.last());
        }
        lemma_insert_at(p, s.last(), p.len() as int);
        assert(p.insert(p.len() as int, s.last()) =~= s);
    }
}

/// Places `x` into `out`, which holds `sort_desc` of the items seen so far,
/// or appends it when not sorting.
fn place(out: &mut Vec<PseudoItem>, x: PseudoItem, sort: bool)
    ensures
        final(out)@ == if sort {
            insert_desc(old(out)@, x)
        } else {
            old(out)@.push(x)
        },
{
    if !sort {
        out.push(x);
        return;
    }
    let mut i: usize = 0;
    while i < out.len() && !key_less(&out[i].timestamp, &x.timestamp)
        invariant
            i <= out@.len(),
            *out == *old(out),
            forall|j: int| 0 <= j < i ==> key(#[trigger] out@[j]) >= key(x),
        decreases out@.len() - i,
    {
        i = i + 1;
    }
    proof {
        lemma_insert_at(out@, x, i as int);
    }
    out.insert(i, x);
}

/// Merges the items of one refresh into the cache: each fresh item gets the
/// timestamp derived from its publication date where it has none, fresh
/// items go ahead of the cached ones, the whole is sorted by descending
/// timestamp when `sort` is set, and cut to `max_length`. Nothing is
/// de-duplicated.
pub fn merge_items(fresh: Vec<PseudoItem>, existing: Vec<PseudoItem>, sort: bool, max_length: usize) -> (r:
    Vec<PseudoItem>)
    ensures
        r@ == merged(fresh@, existing@, sort, max_length as nat),
{
    let ghost all = combined(fresh@, existing@);
    let ghost nf = fresh@.len();
    let ghost f0 = fresh@;
    let ghost e0 = existing@;
    let mut fresh = fresh;
    let mut existing = existing;
    let mut out: Vec<PseudoItem> = Vec::new();
    let ghost mut seen: int = 0;
    assert(out@ =~= all.subrange(0, 0));
    while fresh.len() > 0
        invariant
            0 <= seen <= nf,
            all == combined(f0, e0),
            nf == f0.len(),
            fresh@ == f0.subrange(seen, nf as int),
            existing@ == e0,
            out@ == (if sort { sort_desc(all.subrange(0, seen)) } else { all.subrange(0, seen) }),
        decreases fresh@.len(),
    {
        let x = fresh.remove(0);
        let x = derive_timestamp(x);
        proof {
            assert(all[seen] == x);
            assert(all.subrange(0, seen + 1).drop_last() =~= all.subrange(0, seen));
            assert(all.subrange(0, seen).push(x) =~= all.subrange(0, seen + 1));
        }
        place(&mut out, x, sort);
        proof {
            seen = seen + 1;
            assert(fresh@ =~= f0.subrange(seen, nf as int));
        }
    }
    while existing.len() > 0
        invariant
            nf <= seen <= all.len(),
            all == combined(f0, e0),
            nf == f0.len(),
            all.len() == nf + e0.len(),
            existing@ == e0.subrange(seen - nf, e0.len() as int),
            out@ == (if sort { sort_desc(all.subrange(0, seen)) } else { all.subrange(0, seen) }),
        decreases existing@.len(),
    {
        let x = existing.remove(0);
        proof {
            assert(all[seen] == x);
            assert(all.subrange(0, seen + 1).drop_last() =~= all.subrange(0, seen));
            assert(all.subrange(0, seen).push(x) =~= all.subrange(0, seen + 1));
        }
        place(&mut out, x, sort);
        proof {
            seen = seen + 1;
            assert(existing@ =~= e0.subrange(seen - nf, e0.len() as int));
        }
    }
    assert(all.subrange(0, seen) =~= all);
    if out.len() > max_length {
        out.truncate(max_length);
    }
    out
}

/// A refresh leaves at most `max_length` items in the cache.
pub proof fn law_cap(fresh: Seq<PseudoItem>, existing: Seq<PseudoItem>, sort: bool, max_length: nat)
    ensures
        merged(fresh, existing, sort, max_length).len() <= max_length,
{
}

/// With sorting on, no cached item is followed by one with a later
/// timestamp; items without a timestamp come last.
pub proof fn law_order(fresh: Seq<PseudoItem>, existing: Seq<PseudoItem>, max_length: nat)
    ensures
        sorted_desc(merged(fresh, existing, true, max_length)),
        forall|k: int|
            0 <= k < merged(fresh, existing, true, max_length).len() - 1 ==> key(
                #[trigger] merged(fresh, existing, true, max_length)[k],
            ) >= key(merged(fresh, existing, true, max_length)[k + 1]),
{
    let all = combined(fresh, existing);
    lemma_sort_items(all);
    let r = merged(fresh, existing, true, max_length);
    assert forall|a: int, b: int| #![trigger r[a], r[b]] 0 <= a < b < r.len() implies key(r[a]) >= key(r[b]) by {
        assert(r[a] == sort_desc(all)[a] && r[b] == sort_desc(all)[b]);
    }
    assert forall|k: int| 0 <= k < r.len() - 1 implies key(#[trigger] r[k]) >= key(r[k + 1]) by {
        assert(r[k] == sort_desc(all)[k] && r[k + 1] == sort_desc(all)[k + 1]);
    }
}

/// Every item in the cache after a refresh was cached before, or is a fresh
/// item with its derived timestamp: one that came without a timestamp and
/// with a publication date that parses as RFC-2822 carries the parsed
/// seconds.
pub proof fn law_timestamp_derivation(
    fresh: Seq<PseudoItem>,
    existing: Seq<PseudoItem>,
    sort: bool,
    max_length: nat,
)
    ensures
        forall|y: PseudoItem| #[trigger]
            merged(fresh, existing, sort, max_length).contains(y) ==> existing.contains(y) || exists|k: int|
                0 <= k < fresh.len() && y == derived(#[trigger] fresh[k]),
        forall|k: int|
            0 <= k < fresh.len() && (#[trigger] fresh[k]).timestamp is None && fresh[k].pub_date is Some
                && rfc2822_seconds(fresh[k].pub_date->0@) is Some ==> derived(fresh[k]).timestamp
                == rfc2822_seconds(fresh[k].pub_date->0@),
{
    let all = combined(fresh, existing);
    lemma_sort_items(all);
    let ordered = if sort { sort_desc(all) } else { all };
    let r = merged(fresh, existing, sort, max_length);
    assert forall|y: PseudoItem| #[trigger] r.contains(y) implies existing.contains(y) || exists|k: int|
        0 <= k < fresh.len() && y == derived(#[trigger] fresh[k]) by {
        let j = choose|j: int| 0 <= j < r.len() && r[j] == y;
        assert(ordered[j] == y);
        assert(ordered.contains(y));
        assert(all.contains(y));
        let i = choose|i: int| 0 <= i < all.len() && all[i] == y;
        if i < fresh.len() {
            assert(y == derived(fresh[i]));
        } else {
            assert(existing[i - fresh.len()] == y);
        }
    }
}

/// A refresh in which the extractor returned no item leaves a cache that
/// already met its invariants (within the cap, and sorted when sorting is
/// on) as it was.
pub proof fn law_empty_refresh(existing: Seq<PseudoItem>, sort: bool, max_length: nat)
    requires
        existing.len() <= max_length,
        sort ==> sorted_desc(existing),
    ensures
        merged(Seq::empty(), existing, sort, max_length) == existing,
{
    assert(combined(Seq::empty(), existing) =~= existing);
    if sort {
        lemma_sort_of_sorted(existing);
    }
}

} // verus!
