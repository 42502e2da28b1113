use regex::Regex;
use tmux_watch::classifier::{classify, compile_patterns, prioritize, try_compile_patterns};
use tmux_watch::types::{PaneState, PatternConfig};

fn patterns() -> PatternConfig {
    PatternConfig {
        error: vec![r"^\s*Error:".into(), r"^\s*Traceback".into()],
        waiting_input: vec![r"^\s*❯\s*\d+\.".into(), r"\(y/n\)\s*$".into()],
        done: vec![r"^\s*✓\s".into(), r"\bTask complete\b".into()],
        working: vec![r"^\s*●\s".into(), "esc to interrupt".into()],
    }
}

#[test]
fn always_compiles_with_the_multiline_flag_even_if_the_source_omits_it() {
    let compiled = compile_patterns(&patterns());
    assert!(compiled.error[0].as_str().starts_with("(?m)"));
    assert!(compiled.working[0].as_str().starts_with("(?m)"));
    // Behavioral proof: a "^"-anchored pattern matches a non-first line.
    assert!(compiled.error[0].is_match("noise\nError: boom"));
}

#[test]
fn returns_working_for_an_active_tool_use_line() {
    let compiled = compile_patterns(&patterns());
    let delta = "● Running tests\nsome output\nesc to interrupt";
    assert_eq!(classify(delta, &compiled).state, PaneState::Working);
}

#[test]
fn returns_waiting_input_for_a_numbered_prompt() {
    let compiled = compile_patterns(&patterns());
    let delta = "Pick an option:\n❯ 1. Yes, I trust this folder\n  2. No, exit";
    assert_eq!(classify(delta, &compiled).state, PaneState::WaitingInput);
}

#[test]
fn returns_done_for_a_completion_marker() {
    let compiled = compile_patterns(&patterns());
    let delta = "✓ All good\nTask complete";
    assert_eq!(classify(delta, &compiled).state, PaneState::Done);
}

#[test]
fn returns_error_even_when_other_states_also_match() {
    let compiled = compile_patterns(&patterns());
    let delta = "● doing a thing\nError: something broke\n✓ partial";
    assert_eq!(classify(delta, &compiled).state, PaneState::Error);
}

#[test]
fn waiting_input_beats_done_when_both_match() {
    let compiled = compile_patterns(&patterns());
    let delta = "✓ step done\n❯ 1. Continue?";
    assert_eq!(classify(delta, &compiled).state, PaneState::WaitingInput);
}

#[test]
fn done_beats_working_when_both_match() {
    let compiled = compile_patterns(&patterns());
    let delta = "● tool use line\nTask complete";
    assert_eq!(classify(delta, &compiled).state, PaneState::Done);
}

#[test]
fn defaults_to_working_when_nothing_matches() {
    let compiled = compile_patterns(&patterns());
    let delta = "just some regular scrolling output\nnothing special here";
    let result = classify(delta, &compiled);
    assert_eq!(result.state, PaneState::Working);
    assert!(result.matched_pattern.is_none());
}

#[test]
fn matches_multiline_anchors_against_every_line_not_just_buffer_start() {
    let compiled = compile_patterns(&patterns());
    let delta = "first unrelated line\nsecond line\n✓ Done deep in the buffer";
    assert_eq!(classify(delta, &compiled).state, PaneState::Done);
}

/// Regression guard: a status-bar segment that renders every frame (e.g.
/// "profile: prod") would always match and permanently pin
/// classification to 'working', starving done/waiting_input.
#[test]
fn a_status_bar_only_pattern_like_profile_must_not_be_present_in_working_patterns() {
    let profile_like = Regex::new("(?i)profile:").unwrap();
    assert!(!patterns().working.iter().any(|p| profile_like.is_match(p)));

    let default_working = default_working_patterns();
    assert!(!default_working.iter().any(|p| profile_like.is_match(p)));

    // And none of them may match a persistent status-bar chrome line.
    let chrome = "[hermes] profile: prod | branch: main | 12:04";
    let compiled = compile_patterns(&PatternConfig {
        working: default_working,
        ..Default::default()
    });
    for re in &compiled.working {
        assert!(
            !re.is_match(chrome),
            "working pattern {} matches persistent status-bar chrome",
            re.as_str()
        );
    }
}

/// The `working` list of the shared default.
fn default_working_patterns() -> Vec<String> {
    vec![
        r"^\s*●\s".into(),
        "esc to interrupt".into(),
        r"\bThinking…\b".into(),
        r"^\s*[⠋⠙⠹⠸⠼⠴⠦⠧⠇⠏]\s".into(),
    ]
}

#[test]
fn the_first_matching_pattern_of_the_state_is_named_with_its_flag() {
    let compiled = compile_patterns(&patterns());
    let result = classify("Continue? (y/n)", &compiled);
    assert_eq!(result.state, PaneState::WaitingInput);
    assert_eq!(
        result.matched_pattern,
        Some(r"(?m)\(y/n\)\s*$".to_string())
    );
}

#[test]
fn a_bad_pattern_is_named_with_its_error() {
    let mut bad = patterns();
    bad.done.push("(".to_string());
    match try_compile_patterns(&bad) {
        Ok(_) => panic!("the pattern must not compile"),
        Err(message) => {
            assert!(
                message.starts_with("invalid pattern \"(\": "),
                "{message}"
            );
            assert!(message.contains("unclosed group"), "{message}");
        }
    }
}

#[test]
fn good_patterns_compile_in_multiline_mode() {
    let compiled = match try_compile_patterns(&patterns()) {
        Ok(compiled) => compiled,
        Err(message) => panic!("{message}"),
    };
    assert_eq!(compiled.done.len(), 2);
    assert_eq!(compiled.done[1].as_str(), r"(?m)\bTask complete\b");
}

#[test]
fn hits_are_ranked_by_state() {
    let hit = |s: &str| Some(s.to_string());
    let r = prioritize(hit("e"), hit("w"), hit("d"), hit("k"));
    assert_eq!((r.state, r.matched_pattern), (PaneState::Error, hit("e")));
    let r = prioritize(None, hit("w"), hit("d"), hit("k"));
    assert_eq!((r.state, r.matched_pattern), (PaneState::WaitingInput, hit("w")));
    let r = prioritize(None, None, hit("d"), hit("k"));
    assert_eq!((r.state, r.matched_pattern), (PaneState::Done, hit("d")));
    let r = prioritize(None, None, None, hit("k"));
    assert_eq!((r.state, r.matched_pattern), (PaneState::Working, hit("k")));
    let r = prioritize(None, None, None, None);
    assert_eq!((r.state, r.matched_pattern), (PaneState::Working, None));
}

#[test]
fn states_are_written_by_name() {
    assert_eq!(PaneState::Working.as_str(), "working");
    assert_eq!(PaneState::WaitingInput.as_str(), "waiting_input");
    assert_eq!(PaneState::Done.as_str(), "done");
    assert_eq!(PaneState::Error.as_str(), "error");
}
