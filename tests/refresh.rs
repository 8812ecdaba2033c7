use scrapyard::channel::PseudoChannel;
use scrapyard::errors::Error;
use scrapyard::item::PseudoItem;
use scrapyard::options::{FeedOption, FetchedMeta};
use scrapyard::refresh::{ItemizerRes, Outcome, Refresh, Step};

fn feed(max_length: usize, fetch_length: usize) -> FeedOption {
    FeedOption {
        origin: "https://example.org/feed".to_string(),
        label: "L".to_string(),
        max_length,
        fetch_length,
        interval: 3600,
        idle_limit: 172800,
        sort: false,
        extractor: vec!["node".to_string(), "x.js".to_string()],
        fetch: true,
        channel: PseudoChannel::default(),
    }
}

fn titled(t: &str) -> PseudoItem {
    PseudoItem { title: Some(t.to_string()), ..Default::default() }
}

fn titles(v: &[PseudoItem]) -> Vec<String> {
    v.iter().map(|i| i.title.clone().unwrap_or_default()).collect()
}

fn reply(items: Vec<PseudoItem>, continuation: Option<&str>) -> Outcome {
    Outcome::Reply(ItemizerRes { continuation: continuation.map(|s| s.to_string()), items })
}

/// Runs a refresh against scripted outcomes, returning the URLs invoked and the new cache.
fn run(mut r: Refresh, mut script: Vec<Outcome>, sort: bool) -> (Vec<String>, Vec<PseudoItem>) {
    let mut urls = Vec::new();
    script.reverse();
    loop {
        match r.step() {
            Step::Invoke { url, .. } => {
                urls.push(url);
                let o = script.pop().expect("extractor invoked more often than scripted");
                r.advance(o);
            }
            Step::Finished => break,
        }
    }
    (urls, r.finish(sort))
}

#[test]
fn follows_a_continuation() {
    let f = feed(5, 2);
    let meta = FetchedMeta::new(1000);
    let r = Refresh::new(&f, Vec::new(), &meta, 1000, 3);
    let script = vec![reply(vec![titled("X")], Some("u2")), reply(vec![titled("Y")], None)];
    let (urls, cache) = run(r, script, false);
    assert_eq!(urls, vec!["https://example.org/feed", "u2"]);
    assert_eq!(titles(&cache), vec!["X", "Y"]);
}

#[test]
fn stops_at_the_cap() {
    let f = feed(2, 2);
    let meta = FetchedMeta::new(1000);
    let r = Refresh::new(&f, Vec::new(), &meta, 1000, 3);
    let script = vec![reply(vec![titled("X"), titled("Y")], Some("u2"))];
    let (urls, cache) = run(r, script, false);
    assert_eq!(urls.len(), 1);
    assert_eq!(titles(&cache), vec!["X", "Y"]);
}

#[test]
fn failing_extractor_is_tried_max_retries_times() {
    let f = feed(5, 2);
    let meta = FetchedMeta::new(1000);
    let existing = vec![titled("A"), titled("B")];
    let r = Refresh::new(&f, existing, &meta, 1000, 3);
    let script = vec![
        Outcome::Failed(Error::DeserializeFailed),
        Outcome::Failed(Error::DeserializeFailed),
        Outcome::Failed(Error::DeserializeFailed),
    ];
    let (urls, cache) = run(r, script, false);
    assert_eq!(urls.len(), 3);
    assert!(urls.iter().all(|u| u == "https://example.org/feed"));
    assert_eq!(titles(&cache), vec!["A", "B"]);
}

#[test]
fn retry_drops_the_failed_attempts_items() {
    let f = feed(5, 5);
    let meta = FetchedMeta::new(1000);
    let r = Refresh::new(&f, Vec::new(), &meta, 1000, 2);
    let script = vec![
        reply(vec![titled("P")], Some("u2")),
        Outcome::Failed(Error::FetchFailed),
        reply(vec![titled("Q")], None),
    ];
    let (urls, cache) = run(r, script, false);
    assert_eq!(urls, vec!["https://example.org/feed", "u2", "https://example.org/feed"]);
    assert_eq!(titles(&cache), vec!["Q"]);
}

#[test]
fn no_attempt_without_retries() {
    let f = feed(5, 2);
    let meta = FetchedMeta::new(1000);
    let r = Refresh::new(&f, vec![titled("A")], &meta, 1000, 0);
    let (urls, cache) = run(r, Vec::new(), false);
    assert!(urls.is_empty());
    assert_eq!(titles(&cache), vec!["A"]);
}

#[test]
fn argument_strips_content_and_counts_what_is_left() {
    let f = feed(10, 4);
    let meta = FetchedMeta { last_fetch: 1000, last_requested: 1000 };
    let existing = vec![PseudoItem {
        title: Some("A".to_string()),
        content: Some("long body".to_string()),
        ..Default::default()
    }];
    let mut r = Refresh::new(&f, existing, &meta, 1000, 3);
    r.advance(reply(vec![PseudoItem { title: Some("X".to_string()), content: Some("c".to_string()), ..Default::default() }], Some("u2")));
    let arg = r.argument(f.clone(), Some("<html/>".to_string()));
    assert_eq!(arg.url, "u2");
    assert_eq!(arg.webstr.as_deref(), Some("<html/>"));
    assert_eq!(titles(&arg.preexists), vec!["A", "X"]);
    assert!(arg.preexists.iter().all(|i| i.content.is_none()));
    assert_eq!(arg.length_left, 3);
    assert_eq!(arg.feed.label, "L");
    assert_eq!(r.existing[0].content.as_deref(), Some("long body"));
}

#[test]
fn quota_grows_with_missed_intervals() {
    let f = feed(50, 10);
    let meta = FetchedMeta { last_fetch: 0, last_requested: 0 };
    assert_eq!(f.effective_fetch_length(&meta, 3600 * 3), 30);
    assert_eq!(f.effective_fetch_length(&meta, 3599), 10);
    assert_eq!(f.effective_fetch_length(&meta, 3600 * 100), 50);
    let meta = FetchedMeta { last_fetch: 5000, last_requested: 0 };
    assert_eq!(f.effective_fetch_length(&meta, 4000), 10);
    let small = feed(5, 10);
    assert_eq!(small.effective_fetch_length(&meta, 5000), 5);
    let r = Refresh::new(&f, Vec::new(), &FetchedMeta { last_fetch: 0, last_requested: 0 }, 7199, 1);
    assert_eq!(r.fetch_length, 20);
}
