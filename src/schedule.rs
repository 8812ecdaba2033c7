use vstd::prelude::*;

use crate::options::{is_idle, is_outdated, wait_left, FeedOption, FetchedMeta};

verus! {

/// What a feed's worker does next.
#[derive(Clone, Copy, Debug, PartialEq, Eq, Structural)]
pub enum WorkerAction {
    /// Sleep this many seconds until the feed falls due, then look again.
    Wait(u64),
    /// No reader asked recently: sleep this many seconds and skip the refresh.
    Idle(u64),
    /// Take the feed's lock and refresh it.
    Refresh,
}

/// The worker's decision at `now` for a feed refreshed every `interval`
/// seconds with idle limit `idle_limit`, last refreshed at `last_fetch` and
/// last asked for at `last_requested`.
pub open spec fn worker_action(interval: u64, idle_limit: u64, last_fetch: u64, last_requested: u64, now: u64) -> WorkerAction {
    match wait_left(last_fetch as int, interval as int, now as int) {
        Some(d) => WorkerAction::Wait(d),
        None => if is_idle(last_requested as int, idle_limit as int, now as int) {
            WorkerAction::Idle(interval)
        } else {
            WorkerAction::Refresh
        },
    }
}

/// Decides a worker's next move at `now`: wait while the feed is not due,
/// sleep one interval while it is idle, else refresh.
pub fn next_action(feed: &FeedOption, meta: &FetchedMeta, now: u64) -> (r: WorkerAction)
    ensures
        r == worker_action(feed.interval, feed.idle_limit, meta.last_fetch, meta.last_requested, now),
{
    match feed.time_til_outdated_at(meta, now) {
        Some(d) => WorkerAction::Wait(d),
        None => if feed.idle_at(meta, now) {
            WorkerAction::Idle(feed.interval)
        } else {
            WorkerAction::Refresh
        },
    }
}

/// A feed that no reader asked for within its idle limit is never
/// refreshed by its worker; once it is due, the worker sleeps one interval.
pub proof fn law_idle_suppression(interval: u64, idle_limit: u64, last_fetch: u64, last_requested: u64, now: u64)
    requires
        now - last_requested > idle_limit,
    ensures
        worker_action(interval, idle_limit, last_fetch, last_requested, now) != WorkerAction::Refresh,
        wait_left(last_fetch as int, interval as int, now as int) is None ==> worker_action(
            interval,
            idle_limit,
            last_fetch,
            last_requested,
            now,
        ) == WorkerAction::Idle(interval),
{
}

/// A read refreshes the feed when forced, or when the feed is due.
pub fn should_refresh(feed: &FeedOption, meta: &FetchedMeta, now: u64, force: bool) -> (r: bool)
    ensures
        r == (force || is_outdated(meta.last_fetch as int, feed.interval as int, now as int)),
{
    force || feed.outdated_at(meta, now)
}

/// Records a read at `now`, and the refresh it made, if any.
pub fn record_read(meta: &mut FetchedMeta, refreshed: bool, now: u64)
    ensures
        final(meta).last_requested == now,
        final(meta).last_fetch == if refreshed {
            now
        } else {
            old(meta).last_fetch
        },
{
    if refreshed {
        meta.fetched_at(now);
    }
    meta.requested_at(now);
}

} // verus!
