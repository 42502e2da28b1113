use tmux_watch::state_machine::SettleMachine;
use tmux_watch::types::{BackoffConfig, PollPhase};

const BACKOFF: BackoffConfig = BackoffConfig {
    working_ms: 12000,
    settling_ms: 2000,
    settled_ms: 3000,
};
const SETTLE_WINDOW_MS: u64 = 4000;

fn machine() -> SettleMachine {
    SettleMachine::new(BACKOFF, SETTLE_WINDOW_MS)
}

#[test]
fn starts_in_the_working_phase_polling_at_the_long_interval() {
    let m = machine();
    assert_eq!(m.phase(), PollPhase::Working);
    assert_eq!(m.interval_ms(), 12000);
}

#[test]
fn stays_in_working_long_interval_when_nothing_changes() {
    let mut m = machine();
    m.on_poll(false);
    assert_eq!(m.phase(), PollPhase::Working);
    assert_eq!(m.interval_ms(), 12000);
}

#[test]
fn drops_to_the_short_settling_interval_the_instant_output_changes() {
    let mut m = machine();
    m.on_poll(true);
    assert_eq!(m.phase(), PollPhase::Settling);
    assert_eq!(m.interval_ms(), 2000);
}

#[test]
fn keeps_resetting_the_settle_timer_on_every_further_change() {
    let mut m = machine();
    m.on_poll(true);
    m.on_poll(true);
    assert_eq!(m.phase(), PollPhase::Settling);
    assert_eq!(m.ms_since_last_change(), 0);
}

#[test]
fn only_promotes_settling_to_settled_after_settle_window_of_no_change() {
    let mut m = machine();
    m.on_poll(true); // settling, elapsed 0, next interval 2000
    m.on_poll(false); // elapsed 2000 < 4000
    assert_eq!(m.phase(), PollPhase::Settling);
    m.on_poll(false); // elapsed 4000 >= settle window
    assert_eq!(m.phase(), PollPhase::Settled);
    assert_eq!(m.interval_ms(), 3000);
}

#[test]
fn never_uses_the_settled_interval_while_still_actively_settling() {
    let mut m = machine();
    m.on_poll(true);
    m.on_poll(false);
    assert_eq!(m.interval_ms(), 2000);
}

#[test]
fn returns_to_the_long_working_interval_after_one_settled_tick() {
    let mut m = machine();
    m.on_poll(true);
    m.on_poll(false);
    m.on_poll(false);
    assert_eq!(m.phase(), PollPhase::Settled);
    m.on_poll(false);
    assert_eq!(m.phase(), PollPhase::Working);
    assert_eq!(m.interval_ms(), 12000);
}

#[test]
fn a_change_during_settled_immediately_drops_back_to_settling_not_working() {
    let mut m = machine();
    m.on_poll(true);
    m.on_poll(false);
    m.on_poll(false); // settled
    m.on_poll(true);
    assert_eq!(m.phase(), PollPhase::Settling);
}

#[test]
fn the_quiet_time_is_counted_in_settling_intervals() {
    let mut m = machine();
    m.on_poll(true);
    m.on_poll(false);
    assert_eq!(m.ms_since_last_change(), 2000);
    m.on_poll(false);
    assert_eq!(m.ms_since_last_change(), 4000);
    m.on_poll(false);
    assert_eq!(m.ms_since_last_change(), 0);
}

#[test]
fn a_quiet_time_that_cannot_be_counted_is_refused() {
    let backoff = BackoffConfig { settling_ms: u64::MAX, ..BACKOFF };
    let mut m = SettleMachine::new(backoff, u64::MAX);
    assert!(m.can_poll(true));
    m.on_poll(true);
    assert!(m.can_poll(false));
    let backoff = BackoffConfig { settling_ms: u64::MAX - 1, ..BACKOFF };
    let mut m = SettleMachine::new(backoff, u64::MAX);
    m.on_poll(true);
    m.on_poll(false);
    assert_eq!(m.phase(), PollPhase::Settling);
    assert!(!m.can_poll(false));
    assert!(m.can_poll(true));
}
