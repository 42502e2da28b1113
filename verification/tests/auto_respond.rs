use tmux_watch::auto_respond::{
    build_answer_entry, build_answer_stamp, reject_chrome, suspension_stamp,
    validate_rule_not_chrome, AutoRespondDecision, AutoResponder, CompiledRule,
};
use tmux_watch::types::{
    AutoRespondConfig, AutoRespondLimits, AutoRespondNotify, AutoRespondRule, RuleRisk,
};

fn now_ms() -> u128 {
    match std::time::SystemTime::now().duration_since(std::time::UNIX_EPOCH) {
        Ok(d) => d.as_millis(),
        Err(_) => 0,
    }
}

fn responder(config: AutoRespondConfig) -> AutoResponder {
    match AutoResponder::new(config) {
        Ok(responder) => responder,
        Err(message) => panic!("{message}"),
    }
}

fn default_limits() -> AutoRespondLimits {
    AutoRespondLimits {
        max_auto_responses_per_session: 20,
        max_auto_responses_per_rule_per_hour: 10,
        cooldown_ms_after_response: 5000,
        require_stable_idle_ms: 2000,
    }
}

fn default_notify() -> AutoRespondNotify {
    AutoRespondNotify {
        telegram_on_every_auto_response: false,
        emit_event_to_decide_loop: true,
    }
}

fn safe_rule(id: &str, match_pattern: &str) -> AutoRespondRule {
    AutoRespondRule {
        id: id.to_string(),
        match_pattern: match_pattern.to_string(),
        keys: vec!["1".to_string(), "Enter".to_string()],
        risk: RuleRisk::Safe,
        requires_context_allow: vec![],
        enabled: true,
    }
}

fn confirm_rule(id: &str, match_pattern: &str, ctx: Vec<String>) -> AutoRespondRule {
    AutoRespondRule {
        id: id.to_string(),
        match_pattern: match_pattern.to_string(),
        keys: vec!["y".to_string(), "Enter".to_string()],
        risk: RuleRisk::Confirm,
        requires_context_allow: ctx,
        enabled: true,
    }
}

fn config_with_rules(rules: Vec<AutoRespondRule>) -> AutoRespondConfig {
    AutoRespondConfig {
        enabled: true,
        rules,
        limits: default_limits(),
        notify: default_notify(),
    }
}

fn disabled_config() -> AutoRespondConfig {
    AutoRespondConfig {
        enabled: false,
        rules: vec![safe_rule("any", r"❯\s*\d+\.")],
        limits: default_limits(),
        notify: default_notify(),
    }
}

#[test]
fn disabled_config_returns_disabled_immediately() {
    let mut ar = responder(disabled_config());
    let delta = "❯ 1. Proceed?";
    let result = ar.decide(delta, "", now_ms());
    assert!(matches!(result, AutoRespondDecision::Disabled));
}

#[test]
fn safe_rule_match_returns_should_fire_with_correct_keys() {
    let cfg = config_with_rules(vec![safe_rule(
        "trust-folder",
        r"Do you trust the files in this folder\?",
    )]);
    let mut ar = responder(cfg);
    let delta = "Do you trust the files in this folder?";
    let result = ar.decide(delta, "", now_ms());
    match result {
        AutoRespondDecision::ShouldFire { keys, .. } => {
            assert_eq!(keys, vec!["1", "Enter"]);
        }
        _ => panic!("expected ShouldFire"),
    }
}

#[test]
fn safe_rule_no_match_returns_no_match() {
    let cfg = config_with_rules(vec![safe_rule(
        "trust-folder",
        r"Do you trust the files in this folder\?",
    )]);
    let mut ar = responder(cfg);
    let result = ar.decide("some other prompt", "", now_ms());
    assert!(matches!(result, AutoRespondDecision::NoMatch));
}

#[test]
fn confirm_rule_fires_when_context_matches() {
    let cfg = config_with_rules(vec![confirm_rule(
        "yn-build",
        r"\(y/n\)\s*$",
        vec!["cargo build".to_string()],
    )]);
    let mut ar = responder(cfg);
    let delta = "Continue? (y/n)";
    let summary = "Running: cargo build --release";
    let result = ar.decide(delta, summary, now_ms());
    assert!(matches!(result, AutoRespondDecision::ShouldFire { .. }));
}

#[test]
fn confirm_rule_no_fire_when_context_missing() {
    let cfg = config_with_rules(vec![confirm_rule(
        "yn-build",
        r"\(y/n\)\s*$",
        vec!["cargo build".to_string()],
    )]);
    let mut ar = responder(cfg);
    let delta = "Continue? (y/n)";
    let summary = "rm -rf /some/dangerous/path"; // not in allowlist
    let result = ar.decide(delta, summary, now_ms());
    assert!(matches!(result, AutoRespondDecision::NoMatch));
}

#[test]
fn cooldown_prevents_second_auto_response_within_window() {
    let cfg = config_with_rules(vec![safe_rule("r1", r"Proceed\?")]);
    let mut ar = responder(cfg);
    let base_ms: u128 = 1_000_000;
    // First response.
    let r1 = ar.decide("Proceed?", "", base_ms);
    assert!(matches!(r1, AutoRespondDecision::ShouldFire { .. }));
    if let AutoRespondDecision::ShouldFire { rule_index, keys } = r1 {
        ar.commit(rule_index, &keys, base_ms);
    }
    // Second attempt within cooldown window (1 ms later).
    let r2 = ar.decide("Proceed?", "", base_ms + 1);
    assert!(matches!(r2, AutoRespondDecision::NoMatch));
    // Third attempt after cooldown (5001 ms later).
    let r3 = ar.decide("Proceed?", "", base_ms + 5001);
    assert!(matches!(r3, AutoRespondDecision::ShouldFire { .. }));
}

#[test]
fn rate_limit_per_rule_per_hour_suspends_rule() {
    let mut limits = default_limits();
    limits.max_auto_responses_per_rule_per_hour = 3;
    let cfg = AutoRespondConfig {
        enabled: true,
        rules: vec![safe_rule("r1", r"Proceed\?")],
        limits,
        notify: default_notify(),
    };
    let mut ar = responder(cfg);

    let base_ms: u128 = 1_000_000;
    // Each response is spaced > cooldown (10 s apart) but within an hour.
    for i in 0..3usize {
        let t = base_ms + (i as u128) * 10_000;
        let r = ar.decide("Proceed?", "", t);
        assert!(
            matches!(r, AutoRespondDecision::ShouldFire { .. }),
            "fire {i}"
        );
        if let AutoRespondDecision::ShouldFire { rule_index, keys } = r {
            ar.commit(rule_index, &keys, t);
        }
    }
    // 4th attempt: limit reached → suspended.
    let r4 = ar.decide("Proceed?", "", base_ms + 30_001);
    assert!(
        matches!(r4, AutoRespondDecision::NoMatch),
        "expected NoMatch after suspension"
    );
}

#[test]
fn session_total_cap_prevents_further_responses() {
    let mut limits = default_limits();
    limits.max_auto_responses_per_session = 2;
    let cfg = AutoRespondConfig {
        enabled: true,
        rules: vec![safe_rule("r1", r"Proceed\?")],
        limits,
        notify: default_notify(),
    };
    let mut ar = responder(cfg);

    let base_ms: u128 = 1_000_000;
    for i in 0..2usize {
        let t = base_ms + (i as u128) * 10_000;
        let r = ar.decide("Proceed?", "", t);
        assert!(matches!(r, AutoRespondDecision::ShouldFire { .. }));
        if let AutoRespondDecision::ShouldFire { rule_index, keys } = r {
            ar.commit(rule_index, &keys, t);
        }
    }
    let r3 = ar.decide("Proceed?", "", base_ms + 30_000);
    assert!(matches!(r3, AutoRespondDecision::NoMatch));
}

#[test]
fn rule_matching_status_bar_chrome_is_rejected_at_compile_time() {
    // A naive "profile:" regex that would match persistent chrome must be rejected.
    let bad_rule = AutoRespondRule {
        id: "bad".to_string(),
        match_pattern: "profile:".to_string(),
        keys: vec!["Enter".to_string()],
        risk: RuleRisk::Safe,
        requires_context_allow: vec![],
        enabled: true,
    };
    let result = validate_rule_not_chrome(&bad_rule);
    assert!(result.is_err(), "expected chrome guard to reject pattern");
}

#[test]
fn rule_not_matching_chrome_passes_validation() {
    let good_rule = safe_rule("trust", r"Do you trust the files in this folder\?");
    assert!(validate_rule_not_chrome(&good_rule).is_ok());
}

#[test]
fn compiled_rule_regex_always_has_multiline_flag() {
    let rule = safe_rule("r1", r"^\s*❯\s*\d+\.");
    let cr = match CompiledRule::try_compile(rule) {
        Ok(compiled) => compiled,
        Err(message) => panic!("{message}"),
    };
    assert!(cr.match_source().starts_with("(?m)"));
}

#[test]
fn disabled_rule_is_skipped() {
    let mut rule = safe_rule("r1", r"Proceed\?");
    rule.enabled = false;
    let cfg = config_with_rules(vec![rule]);
    let mut ar = responder(cfg);
    // No compiled rules because the only rule is disabled.
    let r = ar.decide("Proceed?", "", now_ms());
    assert!(matches!(r, AutoRespondDecision::NoMatch));
}

#[test]
fn chrome_is_rejected_with_the_line_that_was_hit() {
    let rule = safe_rule("bad \"id\"", "session: my");
    assert_eq!(
        validate_rule_not_chrome(&rule),
        Err(
            "rule \"bad \\\"id\\\"\" match pattern \"session: my\" matches persistent status-bar \
chrome \"session: my-session | 2026-08-27\"; this would cause spurious auto-responses — rejecting \
the rule"
                .to_string()
        )
    );
}

#[test]
fn the_first_line_that_is_hit_is_named() {
    let rule = safe_rule("r", "x");
    let hit = |hits: &[bool]| match reject_chrome(&rule, hits) {
        Ok(()) => "none".to_string(),
        Err(message) => message,
    };
    assert!(hit(&[true, true, true]).contains("branch: main"));
    assert!(hit(&[false, true, true]).contains("my-session"));
    assert!(hit(&[false, false, true]).contains("tmux-watch | working"));
    assert_eq!(hit(&[false, false, false]), "none");
}

#[test]
fn a_rule_that_does_not_compile_is_refused_by_name() {
    let error = match validate_rule_not_chrome(&safe_rule("r1", "(")) {
        Ok(()) => panic!("the pattern must not compile"),
        Err(message) => message,
    };
    assert!(error.starts_with("rule \"r1\": invalid regex: "), "{error}");
    let error = match CompiledRule::try_compile(safe_rule("r1", "(")) {
        Ok(_) => panic!("the pattern must not compile"),
        Err(message) => message,
    };
    assert!(
        error.starts_with("rule \"r1\" match regex invalid: "),
        "{error}"
    );
    let rule = confirm_rule("r2", "ok", vec!["fine".to_string(), "[".to_string()]);
    let error = match AutoResponder::new(config_with_rules(vec![safe_rule("r1", "ok"), rule])) {
        Ok(_) => panic!("the context pattern must not compile"),
        Err(message) => message,
    };
    assert!(
        error.starts_with("rule \"r2\" requiresContextAllow regex invalid: "),
        "{error}"
    );
}

#[test]
fn a_disabled_rule_may_be_broken() {
    let mut rule = safe_rule("r1", "(");
    rule.enabled = false;
    assert!(AutoResponder::new(config_with_rules(vec![rule])).is_ok());
}

#[test]
fn one_matching_context_pattern_is_enough_and_none_is_no_condition() {
    let rule = confirm_rule(
        "r1",
        "ok",
        vec!["cargo build".to_string(), "^npm".to_string()],
    );
    let compiled = match CompiledRule::try_compile(rule) {
        Ok(compiled) => compiled,
        Err(message) => panic!("{message}"),
    };
    assert!(compiled.context_allows("first\nnpm test"));
    assert!(!compiled.context_allows("yarn test"));
    assert!(compiled.matches_delta("all ok"));
    assert!(!compiled.matches_delta("all bad"));
    let free = match CompiledRule::try_compile(confirm_rule("r2", "ok", vec![])) {
        Ok(compiled) => compiled,
        Err(message) => panic!("{message}"),
    };
    assert!(free.context_allows("anything"));
}

#[test]
fn the_first_rule_that_may_answer_fires() {
    let rules = vec![
        confirm_rule("a", "go", vec!["never".to_string()]),
        safe_rule("b", "go"),
        safe_rule("c", "go"),
    ];
    let mut ar = responder(config_with_rules(rules));
    match ar.decide_given(&[true, true, true], &[false, true, true], 0) {
        AutoRespondDecision::ShouldFire { rule_index, keys } => {
            assert_eq!(rule_index, 1);
            assert_eq!(keys, vec!["1", "Enter"]);
        }
        _ => panic!("expected ShouldFire"),
    }
    match ar.decide_given(&[true, false, true], &[true, true, true], 0) {
        AutoRespondDecision::ShouldFire { rule_index, keys } => {
            assert_eq!(rule_index, 0);
            assert_eq!(keys, vec!["y", "Enter"]);
        }
        _ => panic!("expected ShouldFire"),
    }
    assert!(matches!(
        ar.decide_given(&[false, false, false], &[true, true, true], 0),
        AutoRespondDecision::NoMatch
    ));
}

#[test]
fn a_suspended_rule_rests_even_after_the_hour() {
    let mut limits = default_limits();
    limits.max_auto_responses_per_rule_per_hour = 1;
    let cfg = AutoRespondConfig {
        enabled: true,
        rules: vec![safe_rule("r1", "go"), safe_rule("r2", "go")],
        limits,
        notify: default_notify(),
    };
    let mut ar = responder(cfg);
    assert!(matches!(
        ar.decide("go", "", 0),
        AutoRespondDecision::ShouldFire { rule_index: 0, .. }
    ));
    let outcome = ar.commit(0, &["1".to_string()], 0);
    assert_eq!(outcome.rule_id, "r1");
    assert_eq!(outcome.keys, vec!["1"]);
    // The hourly limit of the first rule is reached: it rests, and nothing fires.
    assert!(matches!(ar.decide("go", "", 10_000), AutoRespondDecision::NoMatch));
    // From then on the second rule is asked.
    assert!(matches!(
        ar.decide("go", "", 7_300_000),
        AutoRespondDecision::ShouldFire { rule_index: 1, .. }
    ));
}

#[test]
fn an_answer_more_than_an_hour_back_no_longer_counts() {
    let mut limits = default_limits();
    limits.max_auto_responses_per_rule_per_hour = 1;
    let cfg = AutoRespondConfig {
        enabled: true,
        rules: vec![safe_rule("r1", "go")],
        limits,
        notify: default_notify(),
    };
    let mut ar = responder(cfg);
    ar.commit(0, &[], 1_000);
    assert!(matches!(
        ar.decide("go", "", 3_601_001),
        AutoRespondDecision::ShouldFire { .. }
    ));
    assert!(matches!(ar.decide("go", "", 3_601_000), AutoRespondDecision::ShouldFire { .. }));
}

#[test]
fn an_answer_exactly_an_hour_back_still_counts() {
    let mut limits = default_limits();
    limits.max_auto_responses_per_rule_per_hour = 1;
    let cfg = AutoRespondConfig {
        enabled: true,
        rules: vec![safe_rule("r1", "go")],
        limits,
        notify: default_notify(),
    };
    let mut ar = responder(cfg);
    ar.commit(0, &[], 1_000);
    assert!(matches!(
        ar.decide("go", "", 3_601_000),
        AutoRespondDecision::NoMatch
    ));
}

#[test]
fn the_cooldown_ends_exactly_when_it_has_passed() {
    let mut ar = responder(config_with_rules(vec![safe_rule("r1", "go")]));
    ar.commit(0, &[], 10_000);
    assert!(matches!(ar.decide("go", "", 14_999), AutoRespondDecision::NoMatch));
    assert!(matches!(ar.decide("go", "", 9_000), AutoRespondDecision::NoMatch));
    assert!(matches!(
        ar.decide("go", "", 15_000),
        AutoRespondDecision::ShouldFire { .. }
    ));
}

#[test]
fn a_rule_is_held_against_fresh_content() {
    let ar = responder(config_with_rules(vec![safe_rule("r1", "^go")]));
    assert!(ar.rule_still_matches(0, "line\ngo on"));
    assert!(!ar.rule_still_matches(0, "no"));
    assert!(!ar.rule_still_matches(1, "go on"));
}

#[test]
fn the_settings_can_be_read() {
    let ar = responder(config_with_rules(vec![]));
    assert_eq!(ar.require_stable_idle_ms(), 2000);
    assert!(!ar.telegram_on_every_auto_response());
    assert!(ar.emit_event_to_decide_loop());
    let mut off = AutoResponder::switched_off(default_limits(), default_notify());
    assert!(matches!(off.decide("x", "", 0), AutoRespondDecision::Disabled));
}

#[test]
fn an_answer_is_written_up_for_the_changelog() {
    let keys = vec!["1".to_string(), "Enter".to_string()];
    let entry = build_answer_entry("r1", &keys);
    assert_eq!(
        entry.what,
        "Auto-responded to waiting_input prompt via rule \"r1\" (keys: 1, Enter)"
    );
    assert_eq!(
        entry.why,
        "Auto-respond rule matched the settled delta; zero LLM tokens consumed."
    );
    assert_eq!(
        entry.how_to_replicate,
        "Configure the same rule in tmux-watch.auto-respond.json for other profiles."
    );
    assert_eq!(
        build_answer_stamp("r1", 1_000_000_007),
        "1000000-auto-respond-7ms.r1"
    );
    assert_eq!(
        build_answer_stamp("r", u128::from(u64::MAX) * 1000),
        "-1-auto-respond-0ms.r"
    );
}

#[test]
fn a_suspension_is_written_up_for_the_changelog() {
    let entry = AutoResponder::log_suspension("r1", 10);
    assert_eq!(
        entry.what,
        "Auto-respond rule \"r1\" suspended: per-rule-per-hour limit (10) reached"
    );
    assert_eq!(
        entry.why,
        "Rate limit exceeded to prevent runaway auto-responses."
    );
    assert_eq!(
        entry.how_to_replicate,
        "Raise maxAutoResponsesPerRulePerHour in tmux-watch.auto-respond.json if this is expected."
    );
}

#[test]
fn a_confirm_rule_without_context_never_fires() {
    let cfg = config_with_rules(vec![confirm_rule("c", r"\(y/n\)", vec![])]);
    let mut ar = responder(cfg);
    assert!(matches!(
        ar.decide("Continue? (y/n)", "anything", 0),
        AutoRespondDecision::NoMatch
    ));
    assert!(matches!(
        ar.decide_given(&[true], &[true], 0),
        AutoRespondDecision::NoMatch
    ));
    // A safe rule needs no context.
    let mut ar = responder(config_with_rules(vec![safe_rule("s", r"\(y/n\)")]));
    assert!(matches!(
        ar.decide("Continue? (y/n)", "anything", 0),
        AutoRespondDecision::ShouldFire { .. }
    ));
}

#[test]
fn without_any_rule_the_answers_are_disabled() {
    let mut ar = responder(config_with_rules(vec![]));
    assert!(matches!(
        ar.decide("Proceed?", "", 0),
        AutoRespondDecision::Disabled
    ));
    assert!(matches!(
        ar.decide_given(&[], &[], 0),
        AutoRespondDecision::Disabled
    ));
}

#[test]
fn the_rule_that_is_put_to_rest_is_noted() {
    let mut limits = default_limits();
    limits.max_auto_responses_per_rule_per_hour = 0;
    let cfg = AutoRespondConfig {
        enabled: true,
        rules: vec![safe_rule("r1", "go"), safe_rule("r2", "go")],
        limits,
        notify: default_notify(),
    };
    let mut ar = responder(cfg);
    let (decision, resting) = ar.decide_and_note(&[false, true], &[true, true], 0);
    assert!(matches!(decision, AutoRespondDecision::NoMatch));
    assert_eq!(resting, Some(1));
    let (_, resting) = ar.decide_and_note(&[false, true], &[true, true], 0);
    assert_eq!(resting, None);
    assert_eq!(suspension_stamp(), "rate-limit-suspension");
}
