use tmux_watch::classifier::compile_patterns;
use tmux_watch::types::{
    AutoRespondConfig, AutoRespondLimits, AutoRespondNotify, AutoRespondRule, BackoffConfig,
    CircuitBreakerConfig, DecisionReason, LogRotationConfig, PaneState, PatternConfig, RuleRisk,
    WatchDecideConfig,
};
use tmux_watch::watch_loop::{
    ChangelogRecord, Readings, StepAction, StepInput, WatchLoop, WatchLoopDeps, WatchStepResult,
};

fn patterns() -> PatternConfig {
    PatternConfig {
        error: vec![r"^\s*Error:".to_string()],
        waiting_input: vec![r"^\s*❯\s*\d+\.".to_string()],
        done: vec![r"^\s*✓\s".to_string()],
        working: vec![r"^\s*●\s".to_string()],
    }
}

fn config() -> WatchDecideConfig {
    WatchDecideConfig {
        settle_window_ms: 4000,
        backoff: BackoffConfig {
            working_ms: 12000,
            settling_ms: 2000,
            settled_ms: 3000,
        },
        max_capture_failures: 3,
        rolling_context_every_n: 5,
        log_rotation: LogRotationConfig {
            max_bytes: 10_000_000,
            max_files: 3,
        },
        safety_timeout_ms: 20000,
        circuit_breaker: CircuitBreakerConfig {
            max_crashes: 3,
            window_ms: 600_000,
        },
        telegram_notify_on_auto_improve: true,
    }
}

fn disabled_auto_respond() -> AutoRespondConfig {
    AutoRespondConfig {
        enabled: false,
        rules: vec![],
        limits: AutoRespondLimits {
            max_auto_responses_per_session: 20,
            max_auto_responses_per_rule_per_hour: 10,
            cooldown_ms_after_response: 5000,
            require_stable_idle_ms: 0, // 0 for tests to avoid sleeping
        },
        notify: AutoRespondNotify {
            telegram_on_every_auto_response: false,
            emit_event_to_decide_loop: true,
        },
    }
}

/// Plays a queue of captures to a loop; the last one is repeated.
struct Player {
    watch: WatchLoop,
    frames: Vec<Result<String, String>>,
    next: usize,
    now: u128,
    keys_go_through: bool,
    sent: Vec<Vec<String>>,
    waited: Vec<u64>,
    log: String,
    changelog: Vec<ChangelogRecord>,
    notices: Vec<String>,
}

impl Player {
    fn capture(&mut self) -> Result<String, String> {
        let frame = self.frames[self.next.min(self.frames.len() - 1)].clone();
        self.next += 1;
        frame
    }

    fn step(&mut self) -> WatchStepResult {
        let mut input = match self.capture() {
            Ok(content) => StepInput::Captured { content },
            Err(message) => StepInput::CaptureFailed { message },
        };
        loop {
            assert!(self.watch.can_step(&input));
            let output = self.watch.step(input, self.now);
            self.now += 1;
            if let Some(text) = output.log_text {
                self.log.push_str(&text);
            }
            if let Some(record) = output.changelog {
                self.changelog.push(record);
            }
            self.notices.extend(output.notice);
            input = match output.action {
                StepAction::Finish { result } => return result,
                StepAction::Recheck { wait_ms } => {
                    self.waited.push(wait_ms);
                    StepInput::Rechecked {
                        fresh: self.capture().ok(),
                    }
                }
                StepAction::SendKeys { keys } => {
                    if self.keys_go_through {
                        self.sent.push(keys);
                        StepInput::KeysSent
                    } else {
                        StepInput::KeysFailed
                    }
                }
            };
        }
    }
}

fn play(
    frames: Vec<Result<&str, &str>>,
    config: WatchDecideConfig,
    auto_respond_config: AutoRespondConfig,
    log_path: Option<&str>,
) -> Player {
    Player {
        watch: WatchLoop::new(WatchLoopDeps {
            session: "s1".to_string(),
            patterns: compile_patterns(&patterns()),
            config,
            auto_respond_config,
            log_path: log_path.map(|p| p.to_string()),
        }),
        frames: frames
            .into_iter()
            .map(|f| f.map(|s| s.to_string()).map_err(|s| s.to_string()))
            .collect(),
        next: 0,
        now: 1_000_000_000,
        keys_go_through: true,
        sent: Vec::new(),
        waited: Vec::new(),
        log: String::new(),
        changelog: Vec::new(),
        notices: Vec::new(),
    }
}

fn make_loop(frames: Vec<&str>) -> Player {
    play(
        frames.into_iter().map(Ok).collect(),
        config(),
        disabled_auto_respond(),
        None,
    )
}

#[test]
fn capture_failure_emits_event_after_exact_threshold_without_panicking() {
    let mut cfg = config();
    cfg.max_capture_failures = 3;
    let mut l = play(
        vec![Err("pane missing"), Err("pane missing"), Err("pane missing")],
        cfg,
        disabled_auto_respond(),
        None,
    );

    l.step();
    l.step();
    let r3 = l.step();

    let event = r3.event.expect("threshold should emit event");
    assert_eq!(event.state, PaneState::Error);
    assert_eq!(event.reason, DecisionReason::CaptureFailure);
    assert!(event.delta.contains("pane missing"));
    assert!(event.summary.contains("pane missing"));
}

#[test]
fn capture_failure_below_threshold_emits_nothing_and_uses_short_interval() {
    let mut cfg = config();
    cfg.max_capture_failures = 3;
    let mut l = play(
        vec![Err("pane missing"), Err("pane missing")],
        cfg,
        disabled_auto_respond(),
        None,
    );

    let r1 = l.step();
    let r2 = l.step();

    assert!(r1.event.is_none());
    assert!(r2.event.is_none());
    assert_eq!(r1.interval_ms, 2000);
    assert_eq!(r2.interval_ms, 2000);
}

#[test]
fn successful_capture_resets_consecutive_failure_counter() {
    let mut cfg = config();
    cfg.max_capture_failures = 3;
    let mut l = play(
        vec![
            Err("pane missing"),
            Err("pane missing"),
            Ok("● working again"),
            Err("pane missing"),
            Err("pane missing"),
            Err("pane missing"),
        ],
        cfg,
        disabled_auto_respond(),
        None,
    );

    assert!(l.step().event.is_none());
    assert!(l.step().event.is_none());
    assert!(l.step().event.is_none());
    assert!(l.step().event.is_none());
    let r5 = l.step();
    assert!(r5.event.is_none());
    assert_eq!(r5.interval_ms, 2000);
    let r6 = l.step();
    assert!(matches!(
        r6.event.as_ref().map(|event| event.reason),
        Some(DecisionReason::CaptureFailure)
    ));
}

#[test]
fn repeated_capture_failure_episodes_emit_again_after_reset() {
    let mut cfg = config();
    cfg.max_capture_failures = 2;
    let mut l = play(
        vec![
            Err("pane missing"),
            Err("pane missing"),
            Err("pane missing"),
            Err("pane missing"),
        ],
        cfg,
        disabled_auto_respond(),
        None,
    );

    assert!(l.step().event.is_none());
    assert!(matches!(
        l.step().event.as_ref().map(|event| event.reason),
        Some(DecisionReason::CaptureFailure)
    ));
    assert!(l.step().event.is_none());
    assert!(matches!(
        l.step().event.as_ref().map(|event| event.reason),
        Some(DecisionReason::CaptureFailure)
    ));
}

#[test]
fn never_emits_while_pane_is_quietly_unchanged() {
    let mut l = make_loop(vec!["● working on it"]);
    let r1 = l.step();
    let r2 = l.step();
    assert!(r1.event.is_none());
    assert!(r2.event.is_none());
    assert_eq!(r1.interval_ms, 12000);
}

#[test]
fn waits_for_settle_window_before_emitting_waiting_input_event() {
    let mut l = make_loop(vec![
        "● working on it",
        "● working on it\n❯ 1. Proceed?",
        "● working on it\n❯ 1. Proceed?",
        "● working on it\n❯ 1. Proceed?",
    ]);
    l.step();
    assert!(l.step().event.is_none());
    assert!(l.step().event.is_none());
    let r4 = l.step();
    let event = r4.event.expect("settled transition emits an event");
    assert_eq!(event.state, PaneState::WaitingInput);
    assert!(event.delta.contains("1 line"));
}

#[test]
fn classifies_only_the_new_delta_not_the_full_scrollback() {
    let mut l = make_loop(vec![
        "✓ previous task done\n● now doing something new",
        "✓ previous task done\n● now doing something new\nmore working output",
        "✓ previous task done\n● now doing something new\nmore working output",
        "✓ previous task done\n● now doing something new\nmore working output",
    ]);
    l.step();
    l.step();
    l.step();
    assert!(l.step().event.is_none());
}

#[test]
fn settled_mid_task_progress_emits_nothing_and_resumes_long_interval() {
    let mut l = make_loop(vec![
        "● step one",
        "● step one\n● step two",
        "● step one\n● step two",
        "● step one\n● step two",
        "● step one\n● step two",
    ]);
    l.step();
    l.step();
    l.step();
    assert!(l.step().event.is_none());
    let r5 = l.step();
    assert!(r5.event.is_none());
    assert_eq!(r5.interval_ms, 12000);
}

#[test]
fn forces_safety_timeout_checkin_when_nothing_transitions() {
    let mut l = make_loop(vec!["● still working, unchanged forever"]);
    let mut saw_timeout_event = false;
    for _ in 0..5 {
        if let Some(event) = l.step().event {
            if matches!(event.reason, DecisionReason::SafetyTimeout) {
                saw_timeout_event = true;
                break;
            }
        }
    }
    assert!(saw_timeout_event);
}

fn auto_respond_config_with_safe_rule(match_pattern: &str) -> AutoRespondConfig {
    AutoRespondConfig {
        enabled: true,
        rules: vec![AutoRespondRule {
            id: "test-safe".to_string(),
            match_pattern: match_pattern.to_string(),
            keys: vec!["1".to_string(), "Enter".to_string()],
            risk: RuleRisk::Safe,
            requires_context_allow: vec![],
            enabled: true,
        }],
        limits: AutoRespondLimits {
            max_auto_responses_per_session: 20,
            max_auto_responses_per_rule_per_hour: 10,
            cooldown_ms_after_response: 5000,
            require_stable_idle_ms: 0,
        },
        notify: AutoRespondNotify {
            telegram_on_every_auto_response: false,
            emit_event_to_decide_loop: true,
        },
    }
}

#[test]
fn disabled_auto_respond_config_is_identical_to_today() {
    // With disabled config, a waiting_input event is emitted normally.
    let frames = vec![
        "● working on it",
        "● working on it\n❯ 1. Proceed?",
        "● working on it\n❯ 1. Proceed?",
        "● working on it\n❯ 1. Proceed?",
    ];
    let mut l = make_loop(frames);
    l.step();
    l.step();
    l.step();
    let r = l.step();
    let event = r.event.expect("event emitted");
    assert_eq!(event.state, PaneState::WaitingInput);
    assert!(matches!(event.reason, DecisionReason::StateTransition));
}

#[test]
fn safe_rule_match_sends_keys_and_emits_auto_responded_event() {
    let mut l = play(
        vec![
            Ok("● working on it"),
            Ok("● working on it\n❯ 1. Proceed?"),
            Ok("● working on it\n❯ 1. Proceed?"),
            // Extra frame returned by the re-capture (same content = still matches).
            Ok("● working on it\n❯ 1. Proceed?"),
        ],
        config(),
        auto_respond_config_with_safe_rule(r"❯\s*\d+\."),
        None,
    );

    l.step(); // init
    l.step(); // change detected
    l.step(); // settling

    let r = l.step(); // settled
    let event = r.event.expect("event emitted");
    assert_eq!(event.state, PaneState::WaitingInput);
    assert!(matches!(event.reason, DecisionReason::AutoResponded));
    assert!(event.summary.contains("test-safe"));

    assert_eq!(l.sent.len(), 1);
    assert_eq!(l.sent[0], vec!["1", "Enter"]);
}

#[test]
fn toctou_abort_when_content_changes_between_classify_and_recheck() {
    // The re-capture returns different content that no longer matches.
    let mut l = play(
        vec![
            Ok("● working on it"),
            Ok("● working on it\n❯ 1. Proceed?"),
            Ok("● working on it\n❯ 1. Proceed?"),
            // Re-capture frame: prompt is gone.
            Ok("● working on something else entirely"),
        ],
        config(),
        auto_respond_config_with_safe_rule(r"❯\s*\d+\."),
        None,
    );

    l.step();
    l.step();
    l.step();
    let r = l.step();
    assert!(r.event.is_none(), "no event when the prompt is gone");
    assert!(l.sent.is_empty(), "no keys sent when the prompt is gone");
}

#[test]
fn send_keys_failure_routes_event_to_llm() {
    let mut l = play(
        vec![
            Ok("● working on it"),
            Ok("● working on it\n❯ 1. Proceed?"),
            Ok("● working on it\n❯ 1. Proceed?"),
            Ok("● working on it\n❯ 1. Proceed?"),
        ],
        config(),
        auto_respond_config_with_safe_rule(r"❯\s*\d+\."),
        None,
    );
    l.keys_go_through = false;

    l.step();
    l.step();
    l.step();
    let r = l.step();
    let event = r.event.expect("event still emitted on send-keys failure");
    assert_eq!(event.state, PaneState::WaitingInput);
    assert!(matches!(event.reason, DecisionReason::StateTransition));
}

const PROMPT: &str = "● working on it\n❯ 1. Proceed?";

fn prompt_frames(fresh: Result<&'static str, &'static str>) -> Vec<Result<&'static str, &'static str>> {
    vec![
        Ok("● working on it"),
        Ok(PROMPT),
        Ok(PROMPT),
        Ok(PROMPT),
        fresh,
        Ok(PROMPT),
    ]
}

#[test]
fn a_prompt_that_is_gone_at_the_recheck_is_left_alone() {
    let mut auto = auto_respond_config_with_safe_rule(r"❯\s*\d+\.");
    auto.limits.require_stable_idle_ms = 250;
    for fresh in [Ok("● carries on"), Err("pane missing")] {
        let mut l = play(
            prompt_frames(fresh),
            config(),
            auto_respond_config_with_safe_rule(r"❯\s*\d+\."),
            None,
        );
        for _ in 0..3 {
            l.step();
        }
        let r = l.step();
        assert!(r.event.is_none());
        assert_eq!(r.interval_ms, 3000);
        assert!(l.sent.is_empty());
        assert_eq!(l.waited, vec![0]);
    }
    let mut l = play(prompt_frames(Ok(PROMPT)), config(), auto, None);
    for _ in 0..4 {
        l.step();
    }
    assert_eq!(l.waited, vec![250]);
}

#[test]
fn an_answer_is_logged_and_written_up() {
    let mut auto = auto_respond_config_with_safe_rule(r"❯\s*\d+\.");
    auto.notify.telegram_on_every_auto_response = true;
    let mut l = play(prompt_frames(Ok(PROMPT)), config(), auto, Some("/logs/tmux-s1.log"));
    for _ in 0..3 {
        l.step();
    }
    let event = l.step().event.expect("event emitted");
    assert_eq!(event.session, "s1");
    assert_eq!(event.delta, "+1 lines since last capture");
    assert_eq!(event.summary, "auto_responded: rule=test-safe keys=1 Enter");
    assert_eq!(event.full_log_path, "/logs/tmux-s1.log");
    assert_eq!(event.timestamp_ms, 1_000_000_005);
    assert_eq!(
        l.log,
        "❯ 1. Proceed?\n[auto-respond] rule=test-safe keys=1 Enter\n"
    );
    assert_eq!(l.changelog.len(), 1);
    let record = &l.changelog[0];
    assert_eq!(record.timestamp, "1000000-auto-respond-5ms.test-safe");
    assert!(record.notify_telegram);
    assert!(record.entry.what.contains("\"test-safe\" (keys: 1, Enter)"));
}

#[test]
fn an_answer_may_be_kept_quiet() {
    let mut auto = auto_respond_config_with_safe_rule(r"❯\s*\d+\.");
    auto.notify.emit_event_to_decide_loop = false;
    let mut l = play(prompt_frames(Ok(PROMPT)), config(), auto, None);
    for _ in 0..3 {
        l.step();
    }
    assert!(l.step().event.is_none());
    assert_eq!(l.sent.len(), 1);
    assert!(l.changelog.is_empty());
    assert!(l.log.is_empty());
}

#[test]
fn a_transition_tells_how_much_came_and_where_to_read_it() {
    let mut l = play(
        vec![
            Ok("a"),
            Ok("a\nreading src/app.ts\n✓ merged #12"),
            Ok("a\nreading src/app.ts\n✓ merged #12"),
        ],
        config(),
        disabled_auto_respond(),
        None,
    );
    for _ in 0..3 {
        assert!(l.step().event.is_none());
    }
    let r = l.step();
    assert_eq!(r.interval_ms, 3000);
    let event = r.event.expect("event emitted");
    assert_eq!(event.state, PaneState::Done);
    assert_eq!(event.reason, DecisionReason::StateTransition);
    assert_eq!(event.delta, "+2 lines desde última captura");
    assert_eq!(
        event.summary,
        "Revisou PR #12. Arquivos: src/app.ts. Concluído."
    );
    assert_eq!(event.full_log_path, "~/.hermes/logs/tmux-s1.log");
    assert_eq!(event.timestamp_ms, 1_000_000_003);
}

#[test]
fn a_check_in_comes_as_soon_as_the_timeout_has_passed() {
    let mut l = make_loop(vec!["● unchanged"]);
    // Polled every 12 s with a timeout of 20 s: the third capture is due.
    assert!(l.step().event.is_none());
    assert!(l.step().event.is_none());
    let event = l.step().event.expect("check-in");
    assert_eq!(event.reason, DecisionReason::SafetyTimeout);
    assert_eq!(event.state, PaneState::Working);
    assert_eq!(event.delta, "+0 lines desde última captura");
    assert!(l.step().event.is_none());
    assert!(l.step().event.is_some());
}

#[test]
fn a_threshold_of_none_counts_as_one() {
    let mut cfg = config();
    cfg.max_capture_failures = 0;
    let mut l = play(vec![Err("gone")], cfg, disabled_auto_respond(), None);
    for _ in 0..3 {
        let event = l.step().event.expect("every failure is told");
        assert_eq!(event.delta, "tmux capture failed: gone");
        assert_eq!(event.summary, event.delta);
    }
}

#[test]
fn rules_that_are_refused_switch_the_answers_off() {
    let mut l = play(
        prompt_frames(Ok(PROMPT)),
        config(),
        auto_respond_config_with_safe_rule("profile:"),
        None,
    );
    let error = l.watch.auto_respond_error().expect("the error is kept");
    assert!(error.contains("status-bar chrome"), "{error}");
    for _ in 0..3 {
        l.step();
    }
    let event = l.step().event.expect("event emitted");
    assert_eq!(event.reason, DecisionReason::StateTransition);
    assert_eq!(l.watch.auto_respond_error(), Some(error));
    assert!(make_loop(vec!["x"]).watch.auto_respond_error().is_none());
}

#[test]
fn an_input_that_no_step_asked_for_is_refused() {
    let l = make_loop(vec!["x"]);
    assert!(!l.watch.can_step(&StepInput::KeysSent));
    assert!(!l.watch.can_step(&StepInput::KeysFailed));
    assert!(!l.watch.can_step(&StepInput::Rechecked { fresh: None }));
    assert!(l.watch.can_step(&StepInput::Captured {
        content: String::new()
    }));
}

#[test]
fn a_clock_that_would_run_over_is_refused() {
    let mut cfg = config();
    cfg.backoff.working_ms = u64::MAX;
    cfg.safety_timeout_ms = u64::MAX;
    let mut l = play(vec![Ok("x"), Err("gone")], cfg, disabled_auto_respond(), None);
    l.step();
    l.step();
    assert!(!l.watch.can_step(&StepInput::CaptureFailed {
        message: "gone".to_string()
    }));
}

fn readings(added: &[&str], state: PaneState) -> Readings {
    Readings {
        added_lines: added.iter().map(|s| s.to_string()).collect(),
        state,
        hits: vec![],
        allowed: vec![],
        still_hits: false,
        timeout_state: PaneState::Working,
    }
}

#[test]
fn a_step_goes_by_what_was_read() {
    let mut l = make_loop(vec!["x"]);
    let mut poll = |added: &[&str], state: PaneState| {
        let input = StepInput::Captured {
            content: "whatever".to_string(),
        };
        match l.watch.step_given(input, readings(added, state), 5).action {
            StepAction::Finish { result } => result,
            _ => panic!("the step must end"),
        }
    };
    assert_eq!(poll(&[], PaneState::Error).interval_ms, 12000);
    assert_eq!(poll(&["a", "b", "c"], PaneState::Error).interval_ms, 2000);
    assert!(poll(&[], PaneState::Error).event.is_none());
    let event = poll(&[], PaneState::Error).event.expect("settled on an error");
    assert_eq!(event.state, PaneState::Error);
    assert_eq!(event.delta, "+3 lines desde última captura");
    assert_eq!(event.timestamp_ms, 5);
}

#[test]
fn an_answer_that_cannot_be_reported_on_can_be_given_up() {
    let mut l = play(
        prompt_frames(Ok(PROMPT)),
        config(),
        auto_respond_config_with_safe_rule(r"❯\s*\d+\."),
        None,
    );
    for _ in 0..3 {
        l.step();
    }
    let capture = || StepInput::Captured {
        content: PROMPT.to_string(),
    };
    let output = l.watch.step(capture(), 0);
    assert!(matches!(output.action, StepAction::Recheck { wait_ms: 0 }));
    assert!(!l.watch.can_step(&capture()));
    assert!(l.watch.can_step(&StepInput::Rechecked { fresh: None }));
    l.watch.abandon_answer();
    assert!(l.watch.can_step(&capture()));
    assert!(!l.watch.can_step(&StepInput::Rechecked { fresh: None }));
}

#[test]
fn what_is_read_of_a_capture_is_the_delta_alone() {
    let mut l = make_loop(vec!["✓ old\n● on it", "✓ old\n● on it\n❯ 2. Stop?"]);
    l.step();
    let input = StepInput::Captured {
        content: "✓ old\n● on it\n❯ 2. Stop?".to_string(),
    };
    let readings = l.watch.read(&input);
    assert_eq!(readings.added_lines, vec!["❯ 2. Stop?"]);
    // Not settled yet, so nothing is recognised.
    assert_eq!(readings.state, PaneState::Working);
    l.step();
    l.step();
    let readings = l.watch.read(&input);
    assert!(readings.added_lines.is_empty());
    assert_eq!(readings.state, PaneState::WaitingInput);
}

#[test]
fn a_rule_that_is_put_to_rest_is_written_up_and_told() {
    let what = "Auto-respond rule \"test-safe\" suspended: per-rule-per-hour limit (0) reached";
    for log_path in [Some("/logs/tmux-s1.log"), None] {
        let mut auto = auto_respond_config_with_safe_rule(r"❯\s*\d+\.");
        auto.limits.max_auto_responses_per_rule_per_hour = 0;
        let mut l = play(prompt_frames(Ok(PROMPT)), config(), auto, log_path);
        for _ in 0..3 {
            l.step();
        }
        assert!(l.notices.is_empty());
        let event = l.step().event.expect("the prompt is told");
        assert_eq!(event.reason, DecisionReason::StateTransition);
        assert!(l.sent.is_empty());
        assert_eq!(l.notices, vec![what]);
        assert_eq!(l.changelog.len(), usize::from(log_path.is_some()));
        if let Some(record) = l.changelog.first() {
            assert_eq!(record.entry.what, what);
            assert_eq!(record.timestamp, "rate-limit-suspension");
            assert!(!record.notify_telegram);
        }
    }
}
