use scrapyard::item::PseudoItem;
use scrapyard::merge::{derive_timestamp, merge_items, with_timestamp};

fn titled(t: &str, ts: Option<u64>) -> PseudoItem {
    PseudoItem {
        title: Some(t.to_string()),
        timestamp: ts,
        ..Default::default()
    }
}

fn titles(v: &[PseudoItem]) -> Vec<String> {
    v.iter().map(|i| i.title.clone().unwrap_or_default()).collect()
}

#[test]
fn fills_an_empty_cache() {
    let fresh = vec![titled("A", None), titled("B", None), titled("C", None)];
    let r = merge_items(fresh, Vec::new(), false, 3);
    assert_eq!(titles(&r), vec!["A", "B", "C"]);
}

#[test]
fn sorted_cache_drops_the_oldest() {
    let existing = vec![titled("A", Some(10)), titled("B", Some(20)), titled("C", Some(30))];
    let fresh = vec![titled("D", Some(40))];
    let r = merge_items(fresh, existing, true, 3);
    assert_eq!(titles(&r), vec!["D", "C", "B"]);
}

#[test]
fn fresh_items_go_first_unsorted() {
    let existing = vec![titled("A", Some(50)), titled("B", Some(60))];
    let fresh = vec![titled("X", Some(1))];
    let r = merge_items(fresh, existing, false, 10);
    assert_eq!(titles(&r), vec!["X", "A", "B"]);
}

#[test]
fn cap_trims_the_tail() {
    let fresh = vec![titled("A", None), titled("B", None), titled("C", None), titled("D", None)];
    let existing = vec![titled("E", None)];
    let r = merge_items(fresh, existing, false, 2);
    assert_eq!(titles(&r), vec!["A", "B"]);
    let r = merge_items(vec![titled("A", None)], Vec::new(), true, 0);
    assert!(r.is_empty());
}

#[test]
fn sort_is_stable_and_puts_untimed_last() {
    let fresh = vec![titled("N1", None), titled("T5a", Some(5)), titled("N2", None), titled("T5b", Some(5)), titled("T9", Some(9))];
    let r = merge_items(fresh, Vec::new(), true, 10);
    assert_eq!(titles(&r), vec!["T9", "T5a", "T5b", "N1", "N2"]);
    for w in r.windows(2) {
        assert!(w[0].timestamp.map(|t| t as i128).unwrap_or(-1) >= w[1].timestamp.map(|t| t as i128).unwrap_or(-1));
    }
}

#[test]
fn duplicates_are_kept() {
    let fresh = vec![titled("A", Some(1))];
    let existing = vec![titled("A", Some(1))];
    let r = merge_items(fresh, existing, true, 10);
    assert_eq!(titles(&r), vec!["A", "A"]);
}

#[test]
fn empty_refresh_keeps_the_cache() {
    let existing = vec![titled("C", Some(30)), titled("B", Some(20)), titled("U", None)];
    let r = merge_items(Vec::new(), existing, true, 3);
    assert_eq!(titles(&r), vec!["C", "B", "U"]);
    let existing = vec![titled("A", Some(1)), titled("B", Some(2))];
    let r = merge_items(Vec::new(), existing, false, 5);
    assert_eq!(titles(&r), vec!["A", "B"]);
}

#[test]
fn timestamp_comes_from_the_publication_date() {
    let item = PseudoItem {
        title: Some("A".to_string()),
        pub_date: Some("Wed, 18 Feb 2015 23:16:09 GMT".to_string()),
        ..Default::default()
    };
    assert_eq!(derive_timestamp(item).timestamp, Some(1424301369));
    let item = PseudoItem {
        pub_date: Some("Tue, 1 Jul 2003 10:52:37 +0200".to_string()),
        ..Default::default()
    };
    assert_eq!(derive_timestamp(item).timestamp, Some(1057049557));
}

#[test]
fn timestamp_kept_or_left_absent() {
    let item = PseudoItem {
        pub_date: Some("Wed, 18 Feb 2015 23:16:09 GMT".to_string()),
        timestamp: Some(7),
        ..Default::default()
    };
    assert_eq!(derive_timestamp(item).timestamp, Some(7));
    let item = PseudoItem {
        pub_date: Some("yesterday".to_string()),
        ..Default::default()
    };
    assert_eq!(derive_timestamp(item).timestamp, None);
    assert_eq!(derive_timestamp(PseudoItem::default()).timestamp, None);
}

#[test]
fn merge_derives_timestamps_of_fresh_items_only() {
    let fresh = vec![PseudoItem {
        title: Some("F".to_string()),
        pub_date: Some("Wed, 18 Feb 2015 23:16:09 GMT".to_string()),
        ..Default::default()
    }];
    let existing = vec![PseudoItem {
        title: Some("E".to_string()),
        pub_date: Some("Tue, 1 Jul 2003 10:52:37 +0200".to_string()),
        ..Default::default()
    }];
    let r = merge_items(fresh, existing, true, 5);
    assert_eq!(titles(&r), vec!["F", "E"]);
    assert_eq!(r[0].timestamp, Some(1424301369));
    assert_eq!(r[1].timestamp, None);
}

#[test]
fn with_timestamp_sets_only_when_missing() {
    let dated = PseudoItem { pub_date: Some("x".to_string()), ..Default::default() };
    assert_eq!(with_timestamp(dated.clone(), Some(12)).timestamp, Some(12));
    assert_eq!(with_timestamp(dated, None).timestamp, None);
    let undated = PseudoItem::default();
    assert_eq!(with_timestamp(undated, Some(12)).timestamp, None);
    let stamped = PseudoItem { pub_date: Some("x".to_string()), timestamp: Some(3), ..Default::default() };
    assert_eq!(with_timestamp(stamped, Some(12)).timestamp, Some(3));
}
