use tmux_watch::dry_run::{ready_to_graduate, tally, ClassificationPair};

struct Criteria {
    min_consecutive_correct: u32,
    min_agreement_rate: f64,
}

struct Outcome {
    agreement_rate: f64,
    consecutive_correct: u32,
    ready_to_graduate: bool,
}

fn evaluate_dry_run(pairs: &[ClassificationPair], criteria: &Criteria) -> Outcome {
    let counts = tally(pairs);
    let agreement_rate = if counts.total == 0 {
        0.0
    } else {
        f64::from(counts.correct) / counts.total as f64
    };
    Outcome {
        agreement_rate,
        consecutive_correct: counts.consecutive_correct,
        ready_to_graduate: ready_to_graduate(
            &counts,
            criteria.min_consecutive_correct,
            agreement_rate >= criteria.min_agreement_rate,
        ),
    }
}

fn pair(predicted: &str, actual: &str) -> ClassificationPair {
    ClassificationPair {
        predicted: predicted.to_string(),
        actual: actual.to_string(),
    }
}

fn criteria() -> Criteria {
    Criteria {
        min_consecutive_correct: 20,
        min_agreement_rate: 0.95,
    }
}

#[test]
fn not_ready_while_below_both_thresholds() {
    let pairs = vec![pair("working", "working"), pair("done", "waiting_input")];
    assert!(!evaluate_dry_run(&pairs, &criteria()).ready_to_graduate);
}

#[test]
fn graduates_on_consecutive_correct_streak() {
    let pairs: Vec<_> = (0..20).map(|_| pair("done", "done")).collect();
    let result = evaluate_dry_run(&pairs, &criteria());
    assert!(result.ready_to_graduate);
    assert_eq!(result.consecutive_correct, 20);
}

#[test]
fn graduates_on_agreement_rate_without_perfect_streak() {
    let mut pairs: Vec<_> = (0..95).map(|_| pair("done", "done")).collect();
    pairs.extend((0..4).map(|_| pair("done", "error")));
    pairs.push(pair("done", "done"));
    let result = evaluate_dry_run(&pairs, &criteria());
    assert!((result.agreement_rate - 0.96).abs() < 0.005);
    assert!(result.ready_to_graduate);
}

#[test]
fn mismatch_resets_streak_to_zero() {
    let pairs = vec![
        pair("done", "done"),
        pair("done", "done"),
        pair("done", "error"),
    ];
    assert_eq!(evaluate_dry_run(&pairs, &criteria()).consecutive_correct, 0);
}

#[test]
fn an_empty_run_never_graduates() {
    let none: Vec<ClassificationPair> = Vec::new();
    let counts = tally(&none);
    assert_eq!((counts.total, counts.correct, counts.consecutive_correct), (0, 0, 0));
    assert!(!ready_to_graduate(&counts, 0, true));
}

#[test]
fn the_streak_starts_anew_behind_a_mismatch() {
    let pairs = vec![
        pair("a", "a"),
        pair("a", "b"),
        pair("c", "c"),
        pair("d", "d"),
    ];
    let counts = tally(&pairs);
    assert_eq!((counts.total, counts.correct, counts.consecutive_correct), (4, 3, 2));
    assert!(ready_to_graduate(&counts, 2, false));
    assert!(!ready_to_graduate(&counts, 3, false));
    assert!(ready_to_graduate(&counts, 3, true));
}
