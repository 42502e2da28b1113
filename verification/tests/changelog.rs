use tmux_watch::changelog::{
    build_changelog_entry, build_notify_args, build_notify_message, format_changelog_entry,
    ChangelogEntry,
};

fn entry() -> ChangelogEntry {
    ChangelogEntry {
        what: "Added pattern for Codex-style '? for suggestions' waiting_input prompt"
            .to_string(),
        why: "3 false 'working' classifications observed in prod session prod-deploy on 2026-08-26 — the loop never fired a decision event for ~40min".to_string(),
        how_to_replicate: "Add the same regex to config/patterns.default.json under waiting_input in any other agent using the watch/decide pattern (e.g. Codex, OpenCode orchestration skills)".to_string(),
    }
}

#[test]
fn format_includes_what_why_how_to_replicate_and_timestamp() {
    let e = entry();
    let md = format_changelog_entry(&e, "2026-08-26T12:00:00.000Z");
    assert!(md.contains("2026-08-26T12:00:00.000Z"));
    assert!(md.contains(&e.what));
    assert!(md.contains(&e.why));
    assert!(md.contains(&e.how_to_replicate));
}

#[test]
fn build_notify_message_produces_short_human_readable_message() {
    let e = entry();
    let msg = build_notify_message(&e);
    assert!(msg.contains("watch/decide"));
    assert!(msg.contains(&e.what));
}

fn short() -> ChangelogEntry {
    ChangelogEntry {
        what: "W".to_string(),
        why: "Y".to_string(),
        how_to_replicate: "H".to_string(),
    }
}

#[test]
fn an_entry_is_laid_out_in_markdown() {
    assert_eq!(
        format_changelog_entry(&short(), "T"),
        "## T\n\n**What:** W\n**Why:** Y\n**How to replicate elsewhere:** H\n\n---\n"
    );
}

#[test]
fn a_notification_is_one_argument() {
    assert_eq!(
        build_notify_args(&short(), "telegram"),
        vec![
            "send",
            "--to",
            "telegram",
            "[watch/decide auto-improve] W\nWhy: Y"
        ]
    );
}

#[test]
fn an_entry_without_a_how_gets_the_default_one() {
    let given = build_changelog_entry("w", "y", Some("h"));
    assert_eq!(given.what, "w");
    assert_eq!(given.why, "y");
    assert_eq!(given.how_to_replicate, "h");
    let default = build_changelog_entry("w", "y", None);
    assert_eq!(
        default.how_to_replicate,
        "Apply the same change to config/patterns.default.json (or the per-profile override) in \
every other agent using this watch/decide pattern."
    );
}
