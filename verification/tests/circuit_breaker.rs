use tmux_watch::circuit_breaker::CircuitBreaker;
use tmux_watch::types::CircuitBreakerConfig;

fn config(max_crashes: u32, window_ms: u64) -> CircuitBreakerConfig {
    CircuitBreakerConfig {
        max_crashes,
        window_ms,
    }
}

#[test]
fn allows_a_restart_while_under_the_crash_threshold_within_the_window() {
    let mut cb = CircuitBreaker::new(config(3, 600_000));
    let mut now: u128 = 0;
    assert!(!cb.record_crash(now).tripped);
    now += 1000;
    assert!(!cb.record_crash(now).tripped);
}

#[test]
fn trips_after_max_crashes_within_window_and_reports_degraded_mode() {
    let mut cb = CircuitBreaker::new(config(3, 600_000));
    let mut now: u128 = 0;
    cb.record_crash(now);
    now += 1000;
    cb.record_crash(now);
    now += 1000;
    assert!(cb.record_crash(now).tripped);
}

#[test]
fn does_not_count_crashes_outside_the_sliding_window() {
    let mut cb = CircuitBreaker::new(config(3, 600_000));
    cb.record_crash(0);
    cb.record_crash(1000);
    let result = cb.record_crash(700_000);
    assert!(!result.tripped);
    assert_eq!(result.crashes_in_window, 1);
}

#[test]
fn stays_tripped_once_tripped_requiring_an_explicit_reset() {
    let mut cb = CircuitBreaker::new(config(2, 600_000));
    cb.record_crash(0);
    assert!(cb.record_crash(100).tripped);
    assert!(cb.is_tripped());
    // Still tripped even for a crash whose window no longer holds the others.
    assert!(cb.record_crash(10_000_000).tripped);
    assert!(cb.is_tripped());
    cb.reset();
    assert!(!cb.is_tripped());
}

#[test]
fn a_crash_exactly_one_window_back_no_longer_counts() {
    let mut cb = CircuitBreaker::new(config(2, 1000));
    cb.record_crash(0);
    let result = cb.record_crash(1000);
    assert!(!result.tripped);
    assert_eq!(result.crashes_in_window, 1);
    let result = cb.record_crash(1999);
    assert!(result.tripped);
    assert_eq!(result.crashes_in_window, 2);
}

#[test]
fn a_reset_forgets_the_crashes() {
    let mut cb = CircuitBreaker::new(config(2, 1000));
    cb.record_crash(0);
    cb.reset();
    assert!(!cb.record_crash(1).tripped);
    assert!(cb.record_crash(2).tripped);
}

#[test]
fn a_clock_that_runs_backwards_keeps_the_crash() {
    let mut cb = CircuitBreaker::new(config(2, 1000));
    cb.record_crash(5000);
    assert_eq!(cb.record_crash(10).crashes_in_window, 2);
}

#[test]
fn crashes_leave_the_window_one_by_one() {
    let mut cb = CircuitBreaker::new(config(3, 500));
    let mut counts = Vec::new();
    for now in [0u128, 400, 500, 950, 1000] {
        let result = cb.record_crash(now);
        assert!(!result.tripped);
        counts.push(result.crashes_in_window);
    }
    assert_eq!(counts, vec![1, 2, 2, 2, 2]);
    let result = cb.record_crash(1449);
    assert_eq!(result.crashes_in_window, 3);
    assert!(result.tripped);
}

#[test]
fn a_crash_counts_at_once_whatever_the_window() {
    let mut cb = CircuitBreaker::new(config(2, 0));
    for _ in 0..3 {
        let result = cb.record_crash(7);
        assert_eq!(result.crashes_in_window, 1);
        assert!(!result.tripped);
    }
}
