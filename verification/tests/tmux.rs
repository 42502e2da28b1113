use tmux_watch::tmux::{
    build_capture_args, build_list_sessions_args, build_send_keys_args, capture_pane, list_sessions,
    send_keys,
};

#[test]
fn send_keys_args_never_use_shell_expansion() {
    let session = "work-backend; rm -rf /";
    let keys = vec!["1".to_string(), "Enter".to_string()];
    let args = build_send_keys_args(session, &keys);
    let t_index = args.iter().position(|a| a == "-t").expect("-t present");
    assert_eq!(args[t_index + 1], session);
    assert!(args.contains(&"1".to_string()));
    assert!(args.contains(&"Enter".to_string()));
}

#[test]
fn send_keys_args_start_with_send_keys() {
    let args = build_send_keys_args("s", &["y".to_string()]);
    assert_eq!(args[0], "send-keys");
}

#[test]
fn capture_args_use_p_and_j_and_never_e() {
    let args = build_capture_args("work-backend");
    assert!(args.contains(&"-p".to_string()));
    assert!(args.contains(&"-J".to_string()));
    assert!(!args.contains(&"-e".to_string()));
}

#[test]
fn capture_args_target_session_as_its_own_argv_entry() {
    let session = "work-backend; rm -rf /";
    let args = build_capture_args(session);
    let t_index = args.iter().position(|a| a == "-t").expect("-t present");
    assert_eq!(args[t_index + 1], session);
}

#[test]
fn list_sessions_args_format_session_names_only() {
    assert_eq!(
        build_list_sessions_args(),
        vec!["list-sessions", "-F", "#{session_name}"]
    );
}

#[test]
fn a_capture_gives_the_output_or_the_trimmed_complaint() {
    assert_eq!(
        capture_pane("s", true, "pane\n".to_string(), "ignored"),
        Ok("pane\n".to_string())
    );
    assert_eq!(
        capture_pane("s", false, "ignored".to_string(), "  can't find pane: s\n"),
        Err("tmux capture-pane failed for session s: can't find pane: s".to_string())
    );
}

#[test]
fn sending_keys_succeeds_or_gives_the_trimmed_complaint() {
    assert_eq!(send_keys("s", true, "ignored"), Ok(()));
    assert_eq!(
        send_keys("s", false, "no server running\n"),
        Err("tmux send-keys failed for s: no server running".to_string())
    );
}

#[test]
fn no_server_means_no_sessions() {
    assert_eq!(list_sessions(true, "a\nb\n".to_string()), "a\nb\n");
    assert_eq!(list_sessions(false, "a\nb\n".to_string()), "");
}

#[test]
fn keys_follow_the_session_in_order() {
    let keys = vec!["1".to_string(), "-t".to_string(), "Enter".to_string()];
    assert_eq!(
        build_send_keys_args("dev", &keys),
        vec!["send-keys", "-t", "dev", "1", "-t", "Enter"]
    );
}
