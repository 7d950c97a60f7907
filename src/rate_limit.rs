use vstd::prelude::*;

verus! {

/// Limits of the sliding-window throttle.
#[derive(Clone, Copy, Debug, PartialEq, Eq, Structural)]
pub struct RateLimitConfig {
    /// Maximum requests per window
    pub max_requests: u32,
    /// Window duration in seconds
    pub window_seconds: u64,
}

impl Default for RateLimitConfig {
    fn default() -> (r: Self)
        ensures
            r.max_requests == 5,
            r.window_seconds == 60,
    {
        RateLimitConfig { max_requests: 5, window_seconds: 60 }
    }
}

/// The stored counter of one (identifier, endpoint) pair.
#[derive(Clone, Copy, Debug, PartialEq, Eq, Structural)]
pub struct RateLimitEntry {
    pub count: u32,
    pub window_start: u64,
}

/// `now` falls inside the window that `e` opened.
pub open spec fn in_window(e: RateLimitEntry, now: u64, config: RateLimitConfig) -> bool {
    (now as int) < e.window_start as int + config.window_seconds as int
}

/// Seconds until the window of `e` closes, as far as a `u64` holds them.
pub open spec fn seconds_left(e: RateLimitEntry, now: u64, config: RateLimitConfig) -> u64 {
    let left = e.window_start as int + config.window_seconds as int - now as int;
    if left > u64::MAX as int {
        u64::MAX
    } else {
        left as u64
    }
}

/// The throttle's decision at time `now` (seconds) given the stored entry:
/// `Ok` with the entry to store when the request may pass, `Err` with the
/// seconds to wait when it may not.
pub open spec fn rate_limit_decision(
    entry: Option<RateLimitEntry>,
    now: u64,
    config: RateLimitConfig,
) -> Result<RateLimitEntry, u64> {
    match entry {
        Some(e) if in_window(e, now, config) => {
            if e.count >= config.max_requests {
                Err(seconds_left(e, now, config))
            } else {
                Ok(RateLimitEntry { count: (e.count + 1) as u32, window_start: e.window_start })
            }
        },
        _ => Ok(RateLimitEntry { count: 1, window_start: now }),
    }
}

/// Decides one request of an (identifier, endpoint) pair. The caller reads the
/// entry, and on `Ok` writes the returned entry back with a time-to-live of
/// `window_seconds`; a failed write lets the request pass all the same.
pub fn check_rate_limit(
    entry: Option<RateLimitEntry>,
    now: u64,
    config: &RateLimitConfig,
) -> (r: Result<RateLimitEntry, u64>)
    ensures
        r == rate_limit_decision(entry, now, *config),
{
    match entry {
        Some(e) if now < e.window_start || now - e.window_start < config.window_seconds => {
            if e.count >= config.max_requests {
                let left: u64 = if now < e.window_start {
                    if e.window_start - now > u64::MAX - config.window_seconds {
                        u64::MAX
                    } else {
                        e.window_start - now + config.window_seconds
                    }
                } else {
                    config.window_seconds - (now - e.window_start)
                };
                Err(left)
            } else {
                Ok(RateLimitEntry { count: e.count + 1, window_start: e.window_start })
            }
        },
        _ => Ok(RateLimitEntry { count: 1, window_start: now }),
    }
}

/// The stored entry after a run of requests at the given instants, starting
/// from `entry`: allowed requests store their new entry, denied ones leave it.
pub open spec fn entry_after(
    entry: Option<RateLimitEntry>,
    times: Seq<u64>,
    config: RateLimitConfig,
) -> Option<RateLimitEntry>
    decreases times.len(),
{
    if times.len() == 0 {
        entry
    } else {
        let before = entry_after(entry, times.drop_last(), config);
        match rate_limit_decision(before, times.last(), config) {
            Ok(e) => Some(e),
            Err(_) => before,
        }
    }
}

proof fn lemma_count_in_window(config: RateLimitConfig, times: Seq<u64>, k: int)
    requires
        1 <= k <= times.len(),
        k <= config.max_requests,
        forall|i: int|
            0 <= i < times.len() ==> times[0] <= #[trigger] times[i] && (times[i] as int)
                < times[0] as int + config.window_seconds as int,
    ensures
        entry_after(None, times.take(k), config) == Some(
            RateLimitEntry { count: k as u32, window_start: times[0] },
        ),
    decreases k,
{
    let t = times.take(k);
    assert(t.drop_last() =~= times.take(k - 1));
    if k > 1 {
        lemma_count_in_window(config, times, k - 1);
        assert(t.last() == times[k - 1]);
    } else {
        assert(times.take(0) =~= Seq::<u64>::empty());
    }
}

/// Within one window, the first `max_requests` requests pass, the next one is
/// told to wait no longer than the window, and the first request once the
/// window is over passes and starts a new window with a count of one.
pub proof fn lemma_sliding_window(config: RateLimitConfig, times: Seq<u64>, later: u64)
    requires
        config.max_requests >= 1,
        times.len() == config.max_requests + 1,
        forall|i: int|
            0 <= i < times.len() ==> times[0] <= #[trigger] times[i] && (times[i] as int)
                < times[0] as int + config.window_seconds as int,
        later >= times[0] as int + config.window_seconds as int,
    ensures
        forall|i: int|
            0 <= i < config.max_requests ==> #[trigger] rate_limit_decision(
                entry_after(None, times.take(i), config),
                times[i],
                config,
            ) is Ok,
        rate_limit_decision(
            entry_after(None, times.take(config.max_requests as int), config),
            times[config.max_requests as int],
            config,
        ) is Err,
        ({
            let w = rate_limit_decision(
                entry_after(None, times.take(config.max_requests as int), config),
                times[config.max_requests as int],
                config,
            )->Err_0;
            0 < w <= config.window_seconds
        }),
        rate_limit_decision(entry_after(None, times, config), later, config) == Ok::<RateLimitEntry, u64>(
            RateLimitEntry { count: 1, window_start: later },
        ),
{
    let max = config.max_requests as int;
    assert forall|i: int| 0 <= i < max implies #[trigger] rate_limit_decision(
        entry_after(None, times.take(i), config),
        times[i],
        config,
    ) is Ok by {
        if i == 0 {
            assert(times.take(0) =~= Seq::<u64>::empty());
        } else {
            lemma_count_in_window(config, times, i);
        }
    }
    lemma_count_in_window(config, times, max);
    let t = times;
    assert(t.drop_last() =~= times.take(max));
    assert(t.last() == times[max]);
}

} // verus!
