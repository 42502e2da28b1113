use tmux_watch::summarizer::{
    extract_commands, extract_file_paths, extract_pr_numbers, render_summary, summarize,
    unique_in_order,
};
use tmux_watch::types::PaneState;

#[test]
fn extracts_unique_pr_numbers_referenced_with_hash() {
    let text = "Reviewed #1237 and #1239, then re-checked #1237 again.";
    assert_eq!(extract_pr_numbers(text), vec!["1237", "1239"]);
}

#[test]
fn extracts_file_paths_with_known_source_extensions() {
    let text = "Edited src/app.ts and docs/README.md, skipped node_modules noise.";
    assert_eq!(
        extract_file_paths(text),
        vec!["src/app.ts", "docs/README.md"]
    );
}

#[test]
fn extracts_shell_commands_from_prompt_prefixed_lines() {
    let text = "❯ npm test\nsome output\n$ git status\nmore output";
    assert_eq!(extract_commands(text), vec!["npm test", "git status"]);
}

#[test]
fn mentions_reviewed_prs_and_the_waiting_input_state() {
    let text = "Revisando #1237 e #1239 antes de seguir.";
    let summary = summarize(text, PaneState::WaitingInput);
    assert!(summary.contains("#1237"));
    assert!(summary.contains("#1239"));
    assert!(summary.to_lowercase().contains("aguardando"));
}

#[test]
fn produces_a_plain_state_note_when_nothing_structured_to_extract() {
    let summary = summarize("just some prose with nothing special", PaneState::Done);
    assert!(summary.to_lowercase().contains("conclu"));
}

#[test]
fn is_a_pure_function_of_its_inputs_never_touches_network_or_llm() {
    let text = "Ran $ pytest -q on src/app.py, waiting on #42.";
    assert_eq!(
        summarize(text, PaneState::WaitingInput),
        summarize(text, PaneState::WaitingInput)
    );
}

#[test]
fn a_summary_lists_prs_files_and_commands_before_the_state() {
    let text = "❯ cargo test\nsee #7 and #9 in src/lib.py and a.md";
    assert_eq!(
        summarize(text, PaneState::WaitingInput),
        render_summary(
            &extract_pr_numbers(text),
            &extract_file_paths(text),
            &extract_commands(text),
            PaneState::WaitingInput
        )
    );
    assert_eq!(extract_pr_numbers(text), vec!["7", "9"]);
    assert_eq!(extract_file_paths(text), vec!["src/lib.py", "a.md"]);
    assert_eq!(extract_commands(text), vec!["cargo test"]);
}

#[test]
fn captures_are_kept_once_in_the_order_in_which_they_came() {
    let found = vec![
        Some("b".to_string()),
        None,
        Some("a".to_string()),
        Some("b".to_string()),
        Some("a".to_string()),
    ];
    assert_eq!(unique_in_order(&found), vec!["b", "a"]);
}

#[test]
fn a_summary_is_rendered_sentence_by_sentence() {
    let none: Vec<String> = Vec::new();
    let one = vec!["7".to_string()];
    let two = vec!["7".to_string(), "9".to_string()];
    let files = vec!["a.ts".to_string(), "b.md".to_string()];
    let cmds = vec!["npm test".to_string()];
    assert_eq!(
        render_summary(&two, &files, &cmds, PaneState::WaitingInput),
        "Revisou PRs #7, #9. Arquivos: a.ts, b.md. Comandos: npm test. Aguardando confirmação."
    );
    assert_eq!(
        render_summary(&one, &none, &none, PaneState::Error),
        "Revisou PR #7. Erro reportado."
    );
    assert_eq!(
        render_summary(&none, &none, &none, PaneState::Working),
        "Em andamento."
    );
    assert_eq!(
        render_summary(&none, &none, &cmds, PaneState::Done),
        "Comandos: npm test. Concluído."
    );
}

#[test]
fn a_command_stands_on_the_line_of_its_prompt() {
    assert!(extract_commands("$\nfoo").is_empty());
    assert!(extract_commands("$ \nfoo").is_empty());
    assert!(extract_commands("❯   \n\nfoo").is_empty());
    assert!(extract_commands("$foo").is_empty());
    assert!(extract_commands("say $ foo").is_empty());
    assert_eq!(extract_commands("$   git log  \r\n❯ ls\n\n"), vec!["git log", "ls"]);
    assert_eq!(extract_commands("  $ a b\n\t❯\u{a0}c"), vec!["a b", "c"]);
}
