use std::collections::HashMap;
use tmux_watch::log_store::{
    append_with_rotation, numbered_suffix, rotate, AppendPlan, LogFile, RotationStep,
};
use tmux_watch::types::LogRotationConfig;

/// Log files kept in memory.
#[derive(Default)]
struct Files {
    held: HashMap<String, String>,
}

fn name(file: LogFile) -> String {
    match file {
        LogFile::Live => "log".to_string(),
        LogFile::Numbered { n } => format!("log{}", numbered_suffix(n)),
    }
}

impl Files {
    fn run(&mut self, step: &RotationStep) {
        match *step {
            RotationStep::Remove { file } => {
                self.held.remove(&name(file));
            }
            RotationStep::Rename { from, to } => {
                if let Some(content) = self.held.remove(&name(from)) {
                    self.held.insert(name(to), content);
                }
            }
        }
    }

    fn append(&mut self, content: &str, config: &LogRotationConfig) {
        let current = self.held.get("log").map(|s| s.len() as u64).unwrap_or(0);
        match append_with_rotation(current, content, config) {
            AppendPlan::Append => {
                self.held
                    .entry("log".to_string())
                    .or_default()
                    .push_str(content);
            }
            AppendPlan::Rotate { steps } => {
                for step in &steps {
                    self.run(step);
                }
                self.held.insert("log".to_string(), content.to_string());
            }
        }
    }

    fn get(&self, file: &str) -> Option<&str> {
        self.held.get(file).map(|s| s.as_str())
    }
}

#[test]
fn appends_to_the_log_file_creating_it_if_missing() {
    let config = LogRotationConfig {
        max_bytes: 1024,
        max_files: 3,
    };
    let mut files = Files::default();
    files.append("line one\n", &config);
    files.append("line two\n", &config);
    assert_eq!(files.get("log"), Some("line one\nline two\n"));
}

#[test]
fn rotates_the_file_once_it_exceeds_max_bytes() {
    let config = LogRotationConfig {
        max_bytes: 100,
        max_files: 3,
    };
    let mut files = Files::default();
    files.held.insert("log".to_string(), "x".repeat(100));
    files.append(&"y".repeat(50), &config);
    assert!(files.get("log.1").is_some());
    assert_eq!(files.get("log"), Some("y".repeat(50).as_str()));
}

#[test]
fn caps_retained_rotated_files_at_max_files_deleting_the_oldest() {
    let config = LogRotationConfig {
        max_bytes: 100,
        max_files: 2,
    };
    let mut files = Files::default();
    files.held.insert("log".to_string(), "a".repeat(100));
    files.append(&"b".repeat(50), &config);
    files.append(&"c".repeat(101), &config);
    files.append(&"d".repeat(101), &config);

    assert!(files.get("log.1").is_some());
    assert!(files.get("log.2").is_some());
    assert!(files.get("log.3").is_none());
    // .1 is the newest rotated content, .2 the older one.
    assert_eq!(files.get("log.1"), Some("c".repeat(101).as_str()));
    assert_eq!(files.get("log.2"), Some("b".repeat(50).as_str()));
    assert_eq!(files.get("log"), Some("d".repeat(101).as_str()));
}

#[test]
fn a_text_that_fills_the_file_exactly_does_not_rotate() {
    let config = LogRotationConfig {
        max_bytes: 10,
        max_files: 2,
    };
    assert!(matches!(
        append_with_rotation(6, "1234", &config),
        AppendPlan::Append
    ));
    assert!(matches!(
        append_with_rotation(6, "12345", &config),
        AppendPlan::Rotate { .. }
    ));
    // An empty file takes even a text that is too large.
    assert!(matches!(
        append_with_rotation(0, "12345678901", &config),
        AppendPlan::Append
    ));
    // Sizes are those of the bytes, not of the characters.
    assert!(matches!(
        append_with_rotation(6, "❯é", &config),
        AppendPlan::Rotate { .. }
    ));
}

#[test]
fn a_rotation_moves_the_files_from_the_oldest_down() {
    let numbered = |n: u32| LogFile::Numbered { n };
    assert_eq!(
        rotate(3),
        vec![
            RotationStep::Remove { file: numbered(3) },
            RotationStep::Rename {
                from: numbered(2),
                to: numbered(3)
            },
            RotationStep::Rename {
                from: numbered(1),
                to: numbered(2)
            },
            RotationStep::Rename {
                from: LogFile::Live,
                to: numbered(1)
            },
        ]
    );
    assert_eq!(
        rotate(0),
        vec![
            RotationStep::Remove { file: numbered(0) },
            RotationStep::Rename {
                from: LogFile::Live,
                to: numbered(1)
            },
        ]
    );
    assert_eq!(numbered_suffix(12), ".12");
}

#[test]
fn what_is_kept_reads_back_in_order() {
    let config = LogRotationConfig {
        max_bytes: 4,
        max_files: 3,
    };
    let mut files = Files::default();
    for piece in ["ab", "cd", "ef", "gh", "ij", "kl"] {
        files.append(piece, &config);
    }
    let all = ["log.3", "log.2", "log.1", "log"]
        .iter()
        .filter_map(|file| files.get(file))
        .collect::<Vec<_>>()
        .join("");
    assert_eq!(all, "abcdefghijkl");
    files.append("mn", &config);
    files.append("op", &config);
    let all = ["log.3", "log.2", "log.1", "log"]
        .iter()
        .filter_map(|file| files.get(file))
        .collect::<Vec<_>>()
        .join("");
    assert_eq!(all, "abcdefghijklmnop");
    files.append("q", &config);
    assert_eq!(files.get("log.3"), Some("efgh"));
    assert_eq!(files.get("log"), Some("q"));
}
