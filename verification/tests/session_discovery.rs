use tmux_watch::session_discovery::{
    filter_sessions_for_profile, parse_tmux_list_sessions, session_prefixes,
};

fn strs(items: &[&str]) -> Vec<String> {
    items.iter().map(|s| s.to_string()).collect()
}

fn sessions() -> Vec<String> {
    strs(&[
        "work-backend",
        "prod-deploy",
        "prod-watch",
        "ariel-review",
        "personal-notes",
    ])
}

#[test]
fn parses_raw_tmux_list_sessions_output_into_session_names() {
    let raw = "work-backend\nariel-review\nprod-deploy\n";
    assert_eq!(
        parse_tmux_list_sessions(raw),
        strs(&["work-backend", "ariel-review", "prod-deploy"])
    );
}

#[test]
fn ignores_blank_lines() {
    assert_eq!(parse_tmux_list_sessions("a\n\nb\n\n"), strs(&["a", "b"]));
}

#[test]
fn returns_empty_list_when_tmux_reports_no_sessions() {
    assert!(parse_tmux_list_sessions("").is_empty());
}

#[test]
fn only_auto_attaches_sessions_matching_this_profiles_allowed_prefixes() {
    let result = filter_sessions_for_profile(&sessions(), &strs(&["prod-"]));
    assert_eq!(result, strs(&["prod-deploy", "prod-watch"]));
}

#[test]
fn returns_nothing_when_no_session_matches_rather_than_all_sessions() {
    let result = filter_sessions_for_profile(&sessions(), &strs(&["nonexistent-"]));
    assert!(result.is_empty());
}

#[test]
fn supports_multiple_allowed_prefixes_for_a_single_profile() {
    let result = filter_sessions_for_profile(&sessions(), &strs(&["prod-", "ariel-"]));
    assert_eq!(
        result,
        strs(&["prod-deploy", "prod-watch", "ariel-review"])
    );
}

#[test]
fn with_an_empty_allowlist_attaches_nothing_explicit_opt_in_only() {
    assert!(filter_sessions_for_profile(&sessions(), &[]).is_empty());
}

#[test]
fn white_space_around_a_name_is_dropped() {
    assert_eq!(
        parse_tmux_list_sessions("  a \r\n\t b\u{a0}\n \n"),
        strs(&["a", "b"])
    );
}

#[test]
fn an_empty_prefix_allows_every_session() {
    assert_eq!(
        filter_sessions_for_profile(&sessions(), &strs(&[""])),
        sessions()
    );
}

#[test]
fn disjoint_prefixes_share_no_session() {
    let mine = filter_sessions_for_profile(&sessions(), &strs(&["prod-"]));
    let theirs = filter_sessions_for_profile(&sessions(), &strs(&["personal-", "work-"]));
    assert!(mine.iter().all(|name| !theirs.contains(name)));
    assert_eq!(theirs, strs(&["work-backend", "personal-notes"]));
}

#[test]
fn prefixes_come_from_the_list_or_from_the_profile() {
    assert_eq!(session_prefixes("prod", None), strs(&["prod-"]));
    assert_eq!(
        session_prefixes("prod", Some("a-,,b-,")),
        strs(&["a-", "b-"])
    );
    assert!(session_prefixes("prod", Some("")).is_empty());
}
