use tmux_watch::text_diff::{diff_lines, hash_content};

#[test]
fn hash_is_stable_for_identical_content() {
    assert_eq!(hash_content("abc\ndef"), hash_content("abc\ndef"));
}

#[test]
fn hash_changes_when_content_changes() {
    assert_ne!(hash_content("abc"), hash_content("abcd"));
}

#[test]
fn returns_only_newly_appended_lines_not_the_whole_buffer() {
    let delta = diff_lines("line1\nline2\nline3", "line1\nline2\nline3\nline4\nline5");
    assert!(delta.changed);
    assert_eq!(delta.added_lines, vec!["line4", "line5"]);
}

/// tmux history-limit eviction shifts every line up; a line-offset diff
/// would misread this as a huge new delta.
#[test]
fn handles_scrollback_eviction_shifting_content() {
    let delta = diff_lines("lineA\nlineB\nlineC\nlineD", "lineB\nlineC\nlineD\nlineE");
    assert_eq!(delta.added_lines, vec!["lineE"]);
}

#[test]
fn reports_no_change_when_content_is_identical() {
    let delta = diff_lines("same\ntext", "same\ntext");
    assert!(!delta.changed);
    assert!(delta.added_lines.is_empty());
}

#[test]
fn falls_back_to_full_next_content_when_there_is_no_overlap() {
    let delta = diff_lines("totally\nunrelated", "brand\nnew\ncontent");
    assert!(delta.changed);
    assert_eq!(delta.added_lines, vec!["brand", "new", "content"]);
}

#[test]
fn treats_an_empty_previous_buffer_as_all_new_content() {
    let delta = diff_lines("", "first\nsecond");
    assert_eq!(delta.added_lines, vec!["first", "second"]);
}

#[test]
fn the_hash_is_the_sha_256_digest_in_hexadecimal() {
    assert_eq!(
        hash_content("abc"),
        "ba7816bf8f01cfea414140de5dae2223b00361a396177a9cb410ff61f20015ad"
    );
    assert_eq!(
        hash_content(""),
        "e3b0c44298fc1c149afbf4c8996fb92427ae41e4649b934ca495991b7852b855"
    );
}

#[test]
fn a_repeated_line_at_the_seam_is_matched_as_far_as_it_goes() {
    let delta = diff_lines("a\nx\nx", "x\nx\nx\nb");
    assert_eq!(delta.added_lines, vec!["x", "b"]);
}

#[test]
fn a_cleared_pane_is_no_change() {
    let delta = diff_lines("a\nb", "");
    assert!(!delta.changed);
    assert!(delta.added_lines.is_empty());
}

#[test]
fn a_trailing_newline_counts_as_an_empty_line() {
    let delta = diff_lines("a", "a\n");
    assert_eq!(delta.added_lines, vec![""]);
}
