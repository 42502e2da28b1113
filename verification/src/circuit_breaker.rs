//! Counts crashes in a sliding window and trips when there are too many.
use crate::types::CircuitBreakerConfig;
use vstd::prelude::*;

verus! {

/// What a recorded crash led to.
pub struct CrashResult {
    pub tripped: bool,
    pub crashes_in_window: usize,
}

/// If the watch loop crashes, callers fall back to a plain polling loop. Without
/// a limit, a persistent bug could bounce the process between the two modes
/// forever. This trips into a degraded, fixed state after `max_crashes` within a
/// sliding `window_ms`, requiring an explicit reset to resume the watch loop.
pub struct CircuitBreaker {
    config: CircuitBreakerConfig,
    crash_timestamps: Vec<u128>,
    tripped: bool,
}

/// The crashes that still count, and whether the breaker has tripped.
#[verifier::ext_equal]
pub struct BreakerState {
    pub config: CircuitBreakerConfig,
    pub crashes: Seq<u128>,
    pub tripped: bool,
}

/// A crash at `t` still counts at `now`: it lies less than the window back. One
/// dated later than `now` counts as just happened.
pub open spec fn in_window(t: u128, now: u128, window_ms: u64) -> bool {
    if now >= t {
        now - t < window_ms
    } else {
        0 < window_ms
    }
}

impl BreakerState {
    /// No crash yet.
    pub open spec fn initial(config: CircuitBreakerConfig) -> BreakerState {
        BreakerState { config, crashes: Seq::empty(), tripped: false }
    }

    /// The crashes that count once one more has happened at `now`.
    pub open spec fn counted(self, now: u128) -> Seq<u128> {
        self.crashes.filter(|t: u128| in_window(t, now, self.config.window_ms)).push(now)
    }

    /// The state after a crash at `now`.
    pub open spec fn after_crash(self, now: u128) -> BreakerState {
        BreakerState {
            config: self.config,
            crashes: self.counted(now),
            tripped: self.tripped || self.counted(now).len() >= self.config.max_crashes,
        }
    }

    /// The state after a row of crashes.
    pub open spec fn after_crashes(self, times: Seq<u128>) -> BreakerState
        decreases times.len(),
    {
        if times.len() == 0 {
            self
        } else {
            self.after_crashes(times.drop_last()).after_crash(times.last())
        }
    }
}

impl View for CircuitBreaker {
    type V = BreakerState;

    closed spec fn view(&self) -> BreakerState {
        BreakerState {
            config: self.config,
            crashes: self.crash_timestamps@,
            tripped: self.tripped,
        }
    }
}

impl CircuitBreaker {
    pub fn new(config: CircuitBreakerConfig) -> (r: Self)
        ensures
            r@ == BreakerState::initial(config),
    {
        CircuitBreaker { config, crash_timestamps: Vec::new(), tripped: false }
    }

    /// Records a crash, forgetting those that have left the window.
    pub fn record_crash(&mut self, now_ms: u128) -> (r: CrashResult)
        ensures
            final(self)@ == old(self)@.after_crash(now_ms),
            r.tripped == final(self)@.tripped,
            r.crashes_in_window == final(self)@.crashes.len(),
            final(self)@.config == old(self)@.config,
            r.tripped == (old(self)@.tripped || r.crashes_in_window
                >= old(self)@.config.max_crashes),
    {
        let window: u128 = self.config.window_ms as u128;
        let ghost keep = |t: u128| in_window(t, now_ms, self.config.window_ms);
        let mut kept: Vec<u128> = Vec::new();
        let mut i: usize = 0;
        proof {
            assert(self.crash_timestamps@.take(0).filter(keep) =~= Seq::empty()) by {
                reveal(Seq::filter);
            }
        }
        while i < self.crash_timestamps.len()
            invariant
                i <= self.crash_timestamps@.len(),
                window == self.config.window_ms,
                keep == (|t: u128| in_window(t, now_ms, self.config.window_ms)),
                kept@ == self.crash_timestamps@.take(i as int).filter(keep),
            decreases self.crash_timestamps@.len() - i,
        {
            let t: u128 = self.crash_timestamps[i];
            proof {
                let all = self.crash_timestamps@;
                assert(all.take(i + 1) =~= all.take(i as int).push(t));
                all.take(i as int).lemma_filter_push(t, keep);
            }
            if now_ms.saturating_sub(t) < window {
                kept.push(t);
            }
            i += 1;
        }
        proof {
            assert(self.crash_timestamps@.take(i as int) =~= self.crash_timestamps@);
        }
        kept.push(now_ms);
        self.crash_timestamps = kept;
        if self.crash_timestamps.len() as u64 >= self.config.max_crashes as u64 {
            self.tripped = true;
        }
        CrashResult { tripped: self.tripped, crashes_in_window: self.crash_timestamps.len() }
    }

    pub fn is_tripped(&self) -> (r: bool)
        ensures
            r == self@.tripped,
    {
        self.tripped
    }

    /// Forgets everything but the configuration.
    pub fn reset(&mut self)
        ensures
            final(self)@ == BreakerState::initial(old(self)@.config),
            !final(self)@.tripped,
            final(self)@.crashes.len() == 0,
    {
        self.tripped = false;
        self.crash_timestamps.clear();
    }
}

/// Once tripped, the breaker stays so through any further crashes; only a reset
/// closes it.
pub proof fn stays_tripped(s: BreakerState, times: Seq<u128>)
    requires
        s.tripped,
    ensures
        s.after_crashes(times).tripped,
    decreases times.len(),
{
    if times.len() > 0 {
        stays_tripped(s, times.drop_last());
    }
}

/// The times of a row of crashes, each no earlier than the one before.
pub open spec fn in_order(times: Seq<u128>) -> bool {
    forall|i: int, j: int| 0 <= i <= j < times.len() ==> times[i] <= times[j]
}

/// Of a row of crashes, those that count at the last one: itself, and each
/// earlier one that lies less than the window back.
pub open spec fn recent(times: Seq<u128>, window_ms: u64) -> Seq<u128> {
    times.drop_last().filter(|t: u128| times.last() - t < window_ms).push(times.last())
}

/// At one of the crashes there were as many in its window as the limit.
pub open spec fn crowded(times: Seq<u128>, config: CircuitBreakerConfig) -> bool {
    exists|n: int|
        0 < n <= times.len() && (#[trigger] recent(times.take(n), config.window_ms)).len()
            >= config.max_crashes
}

/// What passes the stricter of two filters is the same with or without the other
/// one before it.
proof fn stricter_filter_decides(
    items: Seq<u128>,
    loose: spec_fn(u128) -> bool,
    strict: spec_fn(u128) -> bool,
)
    requires
        forall|i: int| 0 <= i < items.len() && strict(#[trigger] items[i]) ==> loose(items[i]),
    ensures
        items.filter(loose).filter(strict) == items.filter(strict),
    decreases items.len(),
{
    reveal(Seq::filter);
    if items.len() > 0 {
        let earlier = items.drop_last();
        assert forall|i: int| 0 <= i < earlier.len() && strict(#[trigger] earlier[i]) implies loose(
            earlier[i],
        ) by {
            assert(items[i] == earlier[i]);
        }
        stricter_filter_decides(earlier, loose, strict);
        let last = items[items.len() - 1];
        if loose(last) {
            earlier.filter(loose).lemma_filter_push(last, strict);
        }
    }
}

/// Two filters that judge every element alike keep the same.
proof fn same_filter(items: Seq<u128>, a: spec_fn(u128) -> bool, b: spec_fn(u128) -> bool)
    requires
        forall|i: int| 0 <= i < items.len() ==> a(#[trigger] items[i]) == b(items[i]),
    ensures
        items.filter(a) == items.filter(b),
    decreases items.len(),
{
    reveal(Seq::filter);
    if items.len() > 0 {
        let front = items.drop_last();
        assert forall|i: int| 0 <= i < front.len() implies a(#[trigger] front[i]) == b(front[i]) by {
            assert(items[i] == front[i]);
        }
        same_filter(front, a, b);
        assert(a(items[items.len() - 1]) == b(items[items.len() - 1]));
    }
}

/// From a fresh start, a row of crashes in the order of their times leaves exactly
/// those counted that lie less than the window before the last one, and that one.
pub proof fn counts_the_recent_crashes(config: CircuitBreakerConfig, times: Seq<u128>)
    requires
        in_order(times),
        times.len() > 0,
    ensures
        BreakerState::initial(config).after_crashes(times).crashes == recent(
            times,
            config.window_ms,
        ),
        BreakerState::initial(config).after_crashes(times).config == config,
    decreases times.len(),
{
    let s = BreakerState::initial(config);
    let earlier = times.drop_last();
    let now = times.last();
    let counts = |t: u128| in_window(t, now, config.window_ms);
    let close = |t: u128| now - t < config.window_ms;
    assert forall|i: int| 0 <= i < earlier.len() implies counts(#[trigger] earlier[i]) == close(
        earlier[i],
    ) by {
        assert(times[i] <= times[times.len() - 1]);
    }
    same_filter(earlier, counts, close);
    if earlier.len() > 0 {
        counts_the_recent_crashes(config, earlier);
        let oldest = earlier.drop_last();
        let before = earlier.last();
        let counted = |t: u128| before - t < config.window_ms;
        assert forall|i: int| 0 <= i < oldest.len() && counts(#[trigger] oldest[i]) implies counted(
            oldest[i],
        ) by {
            assert(times[i] <= times[times.len() - 2]);
            assert(times[times.len() - 2] <= times[times.len() - 1]);
        }
        stricter_filter_decides(oldest, counted, counts);
        oldest.filter(counted).lemma_filter_push(before, counts);
        oldest.lemma_filter_push(before, counts);
        assert(oldest.push(before) =~= earlier);
    } else {
        assert(s.after_crashes(earlier) == s);
        assert(earlier =~= s.crashes);
    }
}

/// From a fresh start, a row of crashes in the order of their times trips the
/// breaker exactly when, at one of them, there were `max_crashes` in its window.
pub proof fn trips_at_the_limit(config: CircuitBreakerConfig, times: Seq<u128>)
    requires
        in_order(times),
    ensures
        BreakerState::initial(config).after_crashes(times).tripped <==> crowded(times, config),
    decreases times.len(),
{
    let s = BreakerState::initial(config);
    if times.len() > 0 {
        let earlier = times.drop_last();
        trips_at_the_limit(config, earlier);
        counts_the_recent_crashes(config, times);
        assert(times.take(times.len() as int) =~= times);
        assert forall|n: int| 0 < n <= earlier.len() implies #[trigger] earlier.take(n)
            == times.take(n) by {
            assert(earlier.take(n) =~= times.take(n));
        }
        if earlier.len() > 0 {
            counts_the_recent_crashes(config, earlier);
        }
        if crowded(earlier, config) {
            let n = choose|n: int|
                0 < n <= earlier.len() && (#[trigger] recent(
                    earlier.take(n),
                    config.window_ms,
                )).len() >= config.max_crashes;
            assert(recent(times.take(n), config.window_ms).len() >= config.max_crashes);
        }
        if crowded(times, config) {
            let n = choose|n: int|
                0 < n <= times.len() && (#[trigger] recent(
                    times.take(n),
                    config.window_ms,
                )).len() >= config.max_crashes;
            if n < times.len() {
                assert(recent(earlier.take(n), config.window_ms).len() >= config.max_crashes);
            }
        }
    }
}

/// Only crashes within the window of the latest one are counted.
pub proof fn counted_crashes_lie_in_the_window(s: BreakerState, now: u128, i: int)
    requires
        0 <= i < s.after_crash(now).crashes.len(),
    ensures
        s.after_crash(now).crashes[i] == now || in_window(
            s.after_crash(now).crashes[i],
            now,
            s.config.window_ms,
        ),
{
    let keep = |t: u128| in_window(t, now, s.config.window_ms);
    let kept = s.crashes.filter(keep);
    if i < kept.len() {
        s.crashes.lemma_filter_pred(keep, i);
    }
}

/// A crash is counted with those before it that lie less than the window back, one
/// dated later than it counting as just happened, and trips the breaker where that
/// makes as many as the limit. A fresh breaker counts none and is not tripped.
pub proof fn one_crash(s: BreakerState, now: u128)
    ensures
        s.after_crash(now).config == s.config,
        s.after_crash(now).crashes == s.crashes.filter(
            |t: u128|
                (if now >= t {
                    now - t
                } else {
                    0
                }) < s.config.window_ms,
        ).push(now),
        s.after_crash(now).tripped <==> s.tripped || s.after_crash(now).crashes.len()
            >= s.config.max_crashes,
        BreakerState::initial(s.config).crashes.len() == 0,
        !BreakerState::initial(s.config).tripped,
        BreakerState::initial(s.config).config == s.config,
{
    let counts = |t: u128| in_window(t, now, s.config.window_ms);
    let close = |t: u128|
        (if now >= t {
            now - t
        } else {
            0
        }) < s.config.window_ms;
    same_filter(s.crashes, counts, close);
}

} // verus!
