use scrapyard::channel::PseudoChannel;
use scrapyard::options::{FeedOption, Feeds, FetchedMeta, MasterConfig};
use scrapyard::schedule::{next_action, record_read, should_refresh, WorkerAction};

fn feed(interval: u64, idle_limit: u64) -> FeedOption {
    FeedOption {
        origin: "https://example.org/feed".to_string(),
        label: "L".to_string(),
        max_length: 50,
        fetch_length: 10,
        interval,
        idle_limit,
        sort: true,
        extractor: vec!["node".to_string()],
        fetch: false,
        channel: PseudoChannel::default(),
    }
}

#[test]
fn idle_feed_is_not_refreshed() {
    let now = 1_000_000;
    let f = feed(300, 60);
    let meta = FetchedMeta { last_fetch: 0, last_requested: now - 120 };
    assert_eq!(next_action(&f, &meta, now), WorkerAction::Idle(300));
}

#[test]
fn waits_until_due() {
    let f = feed(300, 1000);
    let meta = FetchedMeta { last_fetch: 1000, last_requested: 1000 };
    assert_eq!(next_action(&f, &meta, 1100), WorkerAction::Wait(200));
    assert_eq!(next_action(&f, &meta, 1300), WorkerAction::Refresh);
    assert_eq!(next_action(&f, &meta, 1301), WorkerAction::Refresh);
}

#[test]
fn busy_feed_is_refreshed_when_due() {
    let f = feed(300, 60);
    let meta = FetchedMeta { last_fetch: 1000, last_requested: 1290 };
    assert_eq!(next_action(&f, &meta, 1350), WorkerAction::Refresh);
    let meta = FetchedMeta { last_fetch: 1000, last_requested: 1289 };
    assert_eq!(next_action(&f, &meta, 1350), WorkerAction::Idle(300));
}

#[test]
fn staleness_tests() {
    let f = feed(300, 60);
    let meta = FetchedMeta { last_fetch: 1000, last_requested: 1000 };
    assert!(!f.outdated_at(&meta, 1300));
    assert!(f.outdated_at(&meta, 1301));
    assert_eq!(f.time_til_outdated_at(&meta, 1000), Some(300));
    assert_eq!(f.time_til_outdated_at(&meta, 1300), None);
    assert!(!f.idle_at(&meta, 1060));
    assert!(f.idle_at(&meta, 1061));
    let far = FetchedMeta { last_fetch: u64::MAX, last_requested: u64::MAX };
    assert!(!f.outdated_at(&far, u64::MAX));
    assert_eq!(f.time_til_outdated_at(&far, 0), Some(u64::MAX));
}

#[test]
fn reads_refresh_when_forced_or_due() {
    let f = feed(300, 60);
    let meta = FetchedMeta { last_fetch: 1000, last_requested: 1000 };
    assert!(!should_refresh(&f, &meta, 1100, false));
    assert!(should_refresh(&f, &meta, 1100, true));
    assert!(should_refresh(&f, &meta, 1400, false));
}

#[test]
fn reads_record_the_request() {
    let mut meta = FetchedMeta { last_fetch: 1000, last_requested: 1000 };
    record_read(&mut meta, false, 1500);
    assert_eq!((meta.last_fetch, meta.last_requested), (1000, 1500));
    record_read(&mut meta, true, 1600);
    assert_eq!((meta.last_fetch, meta.last_requested), (1600, 1600));
}

#[test]
fn meta_updates() {
    let mut meta = FetchedMeta::new(77);
    assert_eq!((meta.last_fetch, meta.last_requested), (0, 77));
    meta.fetched_at(90);
    assert_eq!((meta.last_fetch, meta.last_requested), (90, 77));
    meta.requested_at(95);
    assert_eq!((meta.last_fetch, meta.last_requested), (90, 95));
    meta.fetched();
    assert!(meta.last_fetch > 1_600_000_000);
    assert_eq!(meta.last_requested, 95);
    meta.requested();
    assert!(meta.last_requested > 1_600_000_000);
    let fresh = FetchedMeta::default();
    assert_eq!(fresh.last_fetch, 0);
    assert!(fresh.last_requested > 1_600_000_000);
}

#[test]
fn master_defaults() {
    let m = MasterConfig::default();
    assert_eq!((m.max_retries, m.request_timeout, m.script_timeout), (3, 20, 20));
    assert_eq!(m.store, "/full/path/to/dir");
}

#[test]
fn feeds_need_an_extractor() {
    let good = feed(300, 60);
    let mut bad = feed(300, 60);
    bad.extractor.clear();
    assert!(good.validate());
    assert!(!bad.validate());
    assert!(Feeds(vec![good.clone()]).validate());
    assert!(!Feeds(vec![good, bad]).validate());
    assert!(Feeds(Vec::new()).validate());
}
