use vstd::prelude::*;

use crate::channel::PseudoChannel;

verus! {

/// Relies on chrono's `Utc::now` and `DateTime::timestamp`: the current unix
/// time in seconds. Nothing is known of the value.
#[verifier::external_body]
pub(crate) fn now_seconds() -> (r: u64) {
    chrono::Utc::now().timestamp() as u64
}

/// Engine-wide settings.
#[derive(Debug)]
pub struct MasterConfig {
    /// Root directory of the per-feed stores.
    pub store: String,
    /// Attempts of the extractor per refresh.
    pub max_retries: u16,
    /// Seconds before a request, or the extractor, is given up.
    pub request_timeout: u64,
    /// Seconds configured for the extractor script.
    pub script_timeout: u64,
}

impl Default for MasterConfig {
    fn default() -> (r: MasterConfig)
        ensures
            r.max_retries == 3,
            r.request_timeout == 20,
            r.script_timeout == 20,
    {
        MasterConfig {
            store: "/full/path/to/dir".to_owned(),
            max_retries: 3,
            request_timeout: 20,
            script_timeout: 20,
        }
    }
}

/// When a feed was last refreshed and last asked for, in unix seconds.
#[derive(Debug)]
pub struct FetchedMeta {
    /// Last refresh; 0 for never.
    pub last_fetch: u64,
    /// Last request by a reader.
    pub last_requested: u64,
}

impl FetchedMeta {
    /// A feed never refreshed and asked for at `now`, so that it does not
    /// start out idle.
    pub fn new(now: u64) -> (r: FetchedMeta)
        ensures
            r.last_fetch == 0,
            r.last_requested == now,
    {
        FetchedMeta { last_fetch: 0, last_requested: now }
    }

    /// Records a refresh at `now`.
    pub fn fetched_at(&mut self, now: u64)
        ensures
            final(self).last_fetch == now,
            final(self).last_requested == old(self).last_requested,
    {
        self.last_fetch = now;
    }

    /// Records a request at `now`.
    pub fn requested_at(&mut self, now: u64)
        ensures
            final(self).last_requested == now,
            final(self).last_fetch == old(self).last_fetch,
    {
        self.last_requested = now;
    }

    /// Records a refresh at the current time.
    pub fn fetched(&mut self)
        ensures
            final(self).last_requested == old(self).last_requested,
    {
        let now = now_seconds();
        self.fetched_at(now);
    }

    /// Records a request at the current time.
    pub fn requested(&mut self)
        ensures
            final(self).last_fetch == old(self).last_fetch,
    {
        let now = now_seconds();
        self.requested_at(now);
    }
}

impl Default for FetchedMeta {
    fn default() -> (r: FetchedMeta)
        ensures
            r.last_fetch == 0,
    {
        FetchedMeta::new(now_seconds())
    }
}

/// The static configuration of one feed.
#[derive(Clone, Debug)]
pub struct FeedOption {
    /// URL to fetch.
    pub origin: String,
    /// Unique name of the feed; names its store directory and its lock.
    pub label: String,
    /// Most items kept in the cache.
    pub max_length: usize,
    /// Items asked for per refresh interval.
    pub fetch_length: usize,
    /// Seconds between refreshes.
    pub interval: u64,
    /// Seconds without a request after which refreshing stops.
    pub idle_limit: u64,
    /// Whether the cache is sorted by descending timestamp.
    pub sort: bool,
    /// Program and arguments of the extractor.
    pub extractor: Vec<String>,
    /// Whether the engine fetches the origin itself before the extractor runs.
    pub fetch: bool,
    /// Channel metadata carried into the rendered feed.
    pub channel: PseudoChannel,
}

/// `last + interval < now`: the feed is due for a refresh.
pub open spec fn is_outdated(last_fetch: int, interval: int, now: int) -> bool {
    last_fetch + interval < now
}

/// Seconds left until the feed falls due, where that is more than none;
/// beyond `u64::MAX` it reads as `u64::MAX`.
pub open spec fn wait_left(last_fetch: int, interval: int, now: int) -> Option<u64> {
    let d = last_fetch + interval - now;
    if d <= 0 {
        None
    } else if d > u64::MAX {
        Some(u64::MAX)
    } else {
        Some(d as u64)
    }
}

/// `last_requested + idle_limit < now`: no reader asked within the limit.
pub open spec fn is_idle(last_requested: int, idle_limit: int, now: int) -> bool {
    last_requested + idle_limit < now
}

pub open spec fn min_int(a: int, b: int) -> int {
    if a <= b { a } else { b }
}

pub open spec fn max_int(a: int, b: int) -> int {
    if a >= b { a } else { b }
}

/// Items asked for in one refresh: the base quota times the intervals
/// elapsed since the last refresh, at least the base quota, at most
/// `max_length`.
pub open spec fn quota(now: int, last_fetch: int, interval: int, base: int, max_length: int) -> int {
    min_int(max_length, max_int(base, ((now - last_fetch + 1) / interval) * base))
}

impl FeedOption {
    /// Whether the extractor command names a program.
    pub fn validate(&self) -> (r: bool)
        ensures
            r == (self.extractor@.len() > 0),
    {
        self.extractor.len() > 0
    }

    /// Whether the feed is due for a refresh at `now`.
    pub fn outdated_at(&self, meta: &FetchedMeta, now: u64) -> (r: bool)
        ensures
            r == is_outdated(meta.last_fetch as int, self.interval as int, now as int),
    {
        (meta.last_fetch as u128) + (self.interval as u128) < now as u128
    }

    /// Seconds until the feed falls due at `now`, or `None` when it is due.
    pub fn time_til_outdated_at(&self, meta: &FetchedMeta, now: u64) -> (r: Option<u64>)
        ensures
            r == wait_left(meta.last_fetch as int, self.interval as int, now as int),
    {
        let due: u128 = (meta.last_fetch as u128) + (self.interval as u128);
        if due <= now as u128 {
            None
        } else if due - (now as u128) > u64::MAX as u128 {
            Some(u64::MAX)
        } else {
            Some((due - now as u128) as u64)
        }
    }

    /// Whether no reader asked for the feed within its idle limit, at `now`.
    pub fn idle_at(&self, meta: &FetchedMeta, now: u64) -> (r: bool)
        ensures
            r == is_idle(meta.last_requested as int, self.idle_limit as int, now as int),
    {
        (meta.last_requested as u128) + (self.idle_limit as u128) < now as u128
    }

    /// Whether the feed is due for a refresh, at some instant of the call.
    pub fn outdated(&self, meta: &FetchedMeta) -> (r: bool)
        ensures
            exists|now: u64| r == is_outdated(meta.last_fetch as int, self.interval as int, now as int),
    {
        let now = now_seconds();
        self.outdated_at(meta, now)
    }

    /// Seconds until the feed falls due, at some instant of the call.
    pub fn time_til_outdated(&self, meta: &FetchedMeta) -> (r: Option<u64>)
        ensures
            exists|now: u64| r == wait_left(meta.last_fetch as int, self.interval as int, now as int),
    {
        let now = now_seconds();
        self.time_til_outdated_at(meta, now)
    }

    /// Whether the feed has passed its idle limit, at some instant of the call.
    pub fn idle(&self, meta: &FetchedMeta) -> (r: bool)
        ensures
            exists|now: u64| r == is_idle(meta.last_requested as int, self.idle_limit as int, now as int),
    {
        let now = now_seconds();
        self.idle_at(meta, now)
    }

    /// Items to ask the extractor for in a refresh at `now`: a feed left
    /// alone for many intervals catches up in one refresh, never past
    /// `max_length`.
    pub fn effective_fetch_length(&self, meta: &FetchedMeta, now: u64) -> (r: usize)
        requires
            self.interval > 0,
        ensures
            r as int == quota(
                now as int,
                meta.last_fetch as int,
                self.interval as int,
                self.fetch_length as int,
                self.max_length as int,
            ),
    {
        let base = self.fetch_length;
        let ghost n = now as int - meta.last_fetch as int + 1;
        let ghost i = self.interval as int;
        let ghost b = base as int;
        let scaled: u128 = if now >= meta.last_fetch {
            let elapsed: u128 = (now - meta.last_fetch) as u128 + 1;
            let q: u128 = elapsed / (self.interval as u128);
            assert(q <= elapsed) by (nonlinear_arith)
                requires
                    q == elapsed / (self.interval as u128),
                    self.interval > 0,
            ;
            assert(q * (base as u128) <= 0x1_0000_0000_0000_0000u128 * 0xffff_ffff_ffff_ffffu128)
                by (nonlinear_arith)
                requires
                    q <= 0x1_0000_0000_0000_0000u128,
                    base <= 0xffff_ffff_ffff_ffffu128,
            ;
            q * (base as u128)
        } else {
            assert((n / i) * b <= 0) by (nonlinear_arith)
                requires
                    n <= 0,
                    i > 0,
                    b >= 0,
            ;
            0
        };
        let wide: u128 = if scaled > base as u128 { scaled } else { base as u128 };
        if wide < self.max_length as u128 {
            wide as usize
        } else {
            self.max_length
        }
    }
}

/// The configured feeds.
#[derive(Clone, Debug)]
pub struct Feeds(pub Vec<FeedOption>);

impl Feeds {
    /// Whether every feed's extractor command names a program.
    pub fn validate(&self) -> (r: bool)
        ensures
            r == forall|k: int| 0 <= k < self.0@.len() ==> (#[trigger] self.0@[k]).extractor@.len() > 0,
    {
        let mut k: usize = 0;
        while k < self.0.len()
            invariant
                k <= self.0@.len(),
                forall|j: int| 0 <= j < k ==> (#[trigger] self.0@[j]).extractor@.len() > 0,
            decreases self.0@.len() - k,
        {
            if !self.0[k].validate() {
                return false;
            }
            k = k + 1;
        }
        true
    }
}

} // verus!
