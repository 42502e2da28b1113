use tmux_watch::rolling_context::RollingContextAccumulator;
use tmux_watch::types::PaneState;

#[test]
fn returns_plain_per_delta_summary_for_interactions_before_n() {
    let mut acc = RollingContextAccumulator::new(5);
    let r1 = acc.record("Reviewed #10", PaneState::WaitingInput);
    assert!(!r1.compacted);
    assert!(r1.summary.contains("#10"));
}

#[test]
fn compacts_on_nth_interaction_merging_facts_across_window() {
    let mut acc = RollingContextAccumulator::new(3);
    acc.record("Reviewed #1237", PaneState::Working);
    acc.record("Reviewed #1239", PaneState::Working);
    let r3 = acc.record("Reviewed #1295, waiting now", PaneState::WaitingInput);
    assert!(r3.compacted);
    assert!(r3.summary.contains("#1237"));
    assert!(r3.summary.contains("#1239"));
    assert!(r3.summary.contains("#1295"));
}

#[test]
fn resets_window_after_compaction_so_next_n_start_fresh() {
    let mut acc = RollingContextAccumulator::new(2);
    acc.record("Reviewed #1", PaneState::Working);
    acc.record("Reviewed #2", PaneState::Working);
    let r3 = acc.record("Reviewed #3", PaneState::Working);
    assert!(!r3.compacted);
    assert!(!r3.summary.contains("#1"));
    assert!(r3.summary.contains("#3"));
}

#[test]
fn the_last_summary_can_be_looked_at_again() {
    let mut acc = RollingContextAccumulator::new(5);
    assert_eq!(acc.peek_summary(), None);
    let r1 = acc.record("Reviewed #10", PaneState::WaitingInput);
    assert_eq!(acc.peek_summary(), Some(r1.summary));
}

#[test]
fn a_window_of_one_or_none_compacts_every_time() {
    for every_n in [0u32, 1] {
        let mut acc = RollingContextAccumulator::new(every_n);
        for _ in 0..3 {
            assert!(acc.record("x", PaneState::Working).compacted);
        }
    }
}

#[test]
fn every_nth_interaction_compacts_whatever_the_states() {
    let states = [PaneState::Working, PaneState::Done, PaneState::Error];
    let mut acc = RollingContextAccumulator::new(3);
    for i in 1..=9usize {
        let r = acc.record(&format!("Reviewed #{i}0"), states[i * 2 % 3]);
        assert_eq!(r.compacted, i % 3 == 0);
        for j in 1..=9usize {
            let covered = if i % 3 == 0 { i - 2 <= j && j <= i } else { i == j };
            assert_eq!(r.summary.contains(&format!("#{j}0")), covered);
        }
    }
}
