use tmux_watch::measurement::{call_ratio, old_call_ratio, payload_ratio, MeasurementInput, Ratio};

struct Estimate {
    old_call_count: u64,
    new_call_count: u32,
    call_reduction_rate: f64,
    payload_reduction_rate: f64,
    meets_fifty_percent_goal: bool,
}

fn reduction(ratio: Option<Ratio>) -> f64 {
    match ratio {
        Some(r) => 1.0 - r.part as f64 / r.whole as f64,
        None => 0.0,
    }
}

fn estimate_reduction(input: &MeasurementInput) -> Estimate {
    let old_call_count = match old_call_ratio(input) {
        Some(r) => (r.part as f64 / r.whole as f64).round() as u64,
        None => 0,
    };
    let call_reduction_rate = reduction(call_ratio(input, old_call_count));
    let payload_reduction_rate = reduction(payload_ratio(input));
    Estimate {
        old_call_count,
        new_call_count: input.new_decision_event_count,
        call_reduction_rate,
        payload_reduction_rate,
        meets_fifty_percent_goal: call_reduction_rate >= 0.5 && payload_reduction_rate >= 0.5,
    }
}

#[test]
fn computes_old_call_count_from_duration_over_poll_interval() {
    let r = estimate_reduction(&MeasurementInput {
        task_duration_ms: 300_000,
        old_poll_interval_ms: 3000,
        new_decision_event_count: 4,
        old_avg_payload_bytes: 42_000,
        new_avg_payload_bytes: 900,
    });
    assert_eq!(r.old_call_count, 100);
    assert_eq!(r.new_call_count, 4);
    assert!((r.call_reduction_rate - 0.96).abs() < 0.005);
}

#[test]
fn computes_payload_reduction_alongside_call_reduction() {
    let r = estimate_reduction(&MeasurementInput {
        task_duration_ms: 60_000,
        old_poll_interval_ms: 3000,
        new_decision_event_count: 2,
        old_avg_payload_bytes: 10_000,
        new_avg_payload_bytes: 500,
    });
    assert!((r.payload_reduction_rate - 0.95).abs() < 0.005);
    assert!(r.meets_fifty_percent_goal);
}

#[test]
fn flags_when_fifty_percent_goal_not_met() {
    let r = estimate_reduction(&MeasurementInput {
        task_duration_ms: 10_000,
        old_poll_interval_ms: 3000,
        new_decision_event_count: 3,
        old_avg_payload_bytes: 1000,
        new_avg_payload_bytes: 900,
    });
    assert!(!r.meets_fifty_percent_goal);
}

#[test]
fn nothing_is_saved_where_there_was_nothing() {
    let input = MeasurementInput {
        task_duration_ms: 10,
        old_poll_interval_ms: 0,
        new_decision_event_count: 3,
        old_avg_payload_bytes: 0,
        new_avg_payload_bytes: 9,
    };
    assert_eq!(old_call_ratio(&input), None);
    assert_eq!(call_ratio(&input, 0), None);
    assert_eq!(payload_ratio(&input), None);
    assert_eq!(call_ratio(&input, 6), Some(Ratio { part: 3, whole: 6 }));
}
