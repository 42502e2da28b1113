use tmux_watch::config::{deep_merge, merge_layers, merge_text, parse_json, Json};
use tmux_watch::types::default_max_capture_failures;

fn text(s: &str) -> Json {
    Json::Str(s.to_string())
}

fn number(n: &str) -> Json {
    Json::Number(n.to_string())
}

fn list(items: &[&str]) -> Json {
    Json::Array(items.iter().map(|s| text(s)).collect())
}

fn object(members: Vec<(&str, Json)>) -> Json {
    Json::Object(
        members
            .into_iter()
            .map(|(key, value)| (key.to_string(), value))
            .collect(),
    )
}

fn member<'a>(value: &'a Json, key: &str) -> Option<&'a Json> {
    match value {
        Json::Object(members) => members.iter().find(|(k, _)| k == key).map(|(_, v)| v),
        _ => None,
    }
}

/// The value that a text holds.
fn parse(raw: &str) -> Json {
    match parse_json(raw) {
        Ok(value) => value,
        Err(message) => panic!("{message}"),
    }
}

/// The default with the text of each layer that is there merged over it.
fn layer_texts(default: &str, layers: &[Option<&str>]) -> Json {
    let mut result = parse(default);
    for layer in layers.iter().flatten() {
        result = match merge_text(result, layer) {
            Ok(value) => value,
            Err(message) => panic!("{message}"),
        };
    }
    result
}

#[test]
fn falls_back_to_default_when_no_preset_or_override_exist() {
    let default = r#"{"error":["A"],"waiting_input":[],"done":[],"working":[]}"#;
    let result = layer_texts(default, &[None, None]);
    assert_eq!(member(&result, "error"), Some(&list(&["A"])));
    let result = merge_layers(parse(default), vec![None, None]);
    assert_eq!(member(&result, "error"), Some(&list(&["A"])));
}

#[test]
fn agent_preset_layers_on_top_of_default() {
    let default = r#"{"error":["A"],"waiting_input":["W"],"done":[],"working":[]}"#;
    let preset = r#"{"waiting_input":["CODEX_W"]}"#;
    let result = layer_texts(default, &[Some(preset), None]);
    assert_eq!(member(&result, "error"), Some(&list(&["A"])));
    assert_eq!(member(&result, "waiting_input"), Some(&list(&["CODEX_W"])));
}

#[test]
fn profile_override_takes_final_precedence_over_preset() {
    let default = r#"{"error":["A"],"waiting_input":["W"],"done":[],"working":[]}"#;
    let preset = r#"{"waiting_input":["CODEX_W"]}"#;
    let profile = r#"{"waiting_input":["PROFILE_W"]}"#;
    let result = layer_texts(default, &[Some(preset), Some(profile)]);
    assert_eq!(member(&result, "waiting_input"), Some(&list(&["PROFILE_W"])));
}

#[test]
fn layers_merged_one_by_one_are_the_layers_merged_together() {
    let default = r#"{"error":["A"],"waiting_input":["W"],"done":[],"working":[]}"#;
    let preset = r#"{"waiting_input":["CODEX_W"],"fresh":1}"#;
    let profile = r#"{"waiting_input":["PROFILE_W"]}"#;
    let together = merge_layers(
        parse(default),
        vec![Some(parse(preset)), None, Some(parse(profile))],
    );
    let in_turn = layer_texts(default, &[Some(preset), None, Some(profile)]);
    assert!(same(&in_turn, &together));
    assert_eq!(member(&together, "waiting_input"), Some(&list(&["PROFILE_W"])));
    assert_eq!(member(&together, "fresh"), Some(&number("1")));
}

#[test]
fn skips_missing_layer_files_without_error() {
    let default = r#"{"error":["A"],"waiting_input":[],"done":[],"working":[]}"#;
    let result = merge_layers(parse(default), vec![None, None]);
    assert_eq!(member(&result, "error"), Some(&list(&["A"])));
}

const DEFAULT_CONFIG: &str = r#"{
    "settleWindowMs": 4000,
    "backoff": {"workingMs": 12000, "settlingMs": 2000, "settledMs": 3000},
    "rollingContextEveryN": 5,
    "logRotation": {"maxBytes": 5242880, "maxFiles": 5},
    "safetyTimeoutMs": 1500000,
    "circuitBreaker": {"maxCrashes": 3, "windowMs": 600000},
    "telegramNotifyOnAutoImprove": true
}"#;

fn default_config() -> Json {
    parse(DEFAULT_CONFIG)
}

#[test]
fn load_config_uses_default_max_capture_failures_and_allows_override() {
    let default_cfg = layer_texts(DEFAULT_CONFIG, &[None]);
    let override_cfg = layer_texts(DEFAULT_CONFIG, &[Some(r#"{"maxCaptureFailures": 7}"#)]);
    assert_eq!(member(&default_cfg, "maxCaptureFailures"), None);
    assert_eq!(default_max_capture_failures(), 3);
    assert_eq!(
        member(&override_cfg, "maxCaptureFailures"),
        Some(&number("7"))
    );
}

#[test]
fn every_kind_of_value_is_read() {
    let value = parse(
        r#" {"n": null, "t": true, "f": false, "i": -12, "d": 2.50, "s": "a\n\u00e9",
             "l": [1, [], "x"], "o": {"inner": {"k": 18446744073709551615}}} "#,
    );
    assert_eq!(member(&value, "n"), Some(&Json::Null));
    assert_eq!(member(&value, "t"), Some(&Json::Bool(true)));
    assert_eq!(member(&value, "f"), Some(&Json::Bool(false)));
    assert_eq!(member(&value, "i"), Some(&number("-12")));
    assert_eq!(member(&value, "d"), Some(&number("2.5")));
    assert_eq!(member(&value, "s"), Some(&text("a\n\u{e9}")));
    assert_eq!(
        member(&value, "l"),
        Some(&Json::Array(vec![number("1"), list(&[]), text("x")]))
    );
    assert_eq!(
        member(&value, "o"),
        Some(&object(vec![(
            "inner",
            object(vec![("k", number("18446744073709551615"))])
        )]))
    );
    match value {
        Json::Object(members) => assert_eq!(members.len(), 8),
        _ => panic!("an object was expected"),
    }
    assert_eq!(parse("[]"), Json::Array(vec![]));
    assert_eq!(parse("\"x\""), text("x"));
}

#[test]
fn a_key_that_a_text_repeats_keeps_its_last_value() {
    assert_eq!(
        parse(r#"{"k": {"a": 1}, "k": {"b": 2}}"#),
        object(vec![("k", object(vec![("b", number("2"))]))])
    );
}

#[test]
fn a_text_that_is_no_json_is_refused() {
    assert_eq!(
        parse_json(""),
        Err("EOF while parsing a value at line 1 column 0".to_string())
    );
    assert_eq!(
        parse_json("{\"a\": 1\n"),
        Err("EOF while parsing an object at line 2 column 0".to_string())
    );
    assert_eq!(
        parse_json("1 2"),
        Err("trailing characters at line 1 column 3".to_string())
    );
}

#[test]
fn an_override_that_is_no_json_is_refused() {
    assert_eq!(
        merge_text(default_config(), ""),
        Err("EOF while parsing a value at line 1 column 0".to_string())
    );
}

#[test]
fn a_text_is_merged_at_every_depth() {
    let merged = layer_texts(DEFAULT_CONFIG, &[Some(r#"{"backoff": {"settlingMs": 500}}"#)]);
    let backoff = match member(&merged, "backoff") {
        Some(value) => value,
        None => panic!("backoff is missing"),
    };
    assert_eq!(member(backoff, "workingMs"), Some(&number("12000")));
    assert_eq!(member(backoff, "settlingMs"), Some(&number("500")));
    assert_eq!(member(&merged, "settleWindowMs"), Some(&number("4000")));
}

#[test]
fn objects_are_merged_at_every_depth() {
    let over = object(vec![("backoff", object(vec![("settlingMs", number("500"))]))]);
    let merged = deep_merge(default_config(), over);
    let backoff = match member(&merged, "backoff") {
        Some(value) => value,
        None => panic!("backoff is missing"),
    };
    assert_eq!(member(backoff, "workingMs"), Some(&number("12000")));
    assert_eq!(member(backoff, "settlingMs"), Some(&number("500")));
    assert_eq!(member(backoff, "settledMs"), Some(&number("3000")));
    assert_eq!(member(&merged, "settleWindowMs"), Some(&number("4000")));
}

#[test]
fn other_values_are_replaced_whole() {
    assert_eq!(deep_merge(list(&["a", "b"]), list(&["c"])), list(&["c"]));
    assert_eq!(deep_merge(default_config(), Json::Null), Json::Null);
    assert_eq!(
        deep_merge(text("x"), object(vec![("k", Json::Null)])),
        object(vec![("k", Json::Null)])
    );
    let merged = deep_merge(
        object(vec![("k", object(vec![("a", Json::Null)]))]),
        object(vec![("k", Json::Bool(false))]),
    );
    assert_eq!(member(&merged, "k"), Some(&Json::Bool(false)));
}

/// Whether two values are the same, whatever the order of their members.
fn same(a: &Json, b: &Json) -> bool {
    match (a, b) {
        (Json::Object(x), Json::Object(y)) => {
            x.len() == y.len()
                && x.iter().all(|(key, value)| match member(b, key) {
                    Some(other) => same(value, other),
                    None => false,
                })
        }
        _ => a == b,
    }
}

#[test]
fn an_empty_override_changes_no_value() {
    assert!(same(
        &deep_merge(default_config(), object(vec![])),
        &default_config()
    ));
}

#[test]
fn merging_an_override_twice_changes_nothing_more() {
    let over = || {
        object(vec![
            ("backoff", object(vec![("settlingMs", number("1"))])),
            ("fresh", list(&["x"])),
        ])
    };
    let once = deep_merge(default_config(), over());
    let twice = deep_merge(deep_merge(default_config(), over()), over());
    assert!(same(&once, &twice));
    assert!(!same(&once, &default_config()));
}

#[test]
fn a_value_merged_over_itself_is_itself() {
    assert!(same(
        &deep_merge(default_config(), default_config()),
        &default_config()
    ));
}

#[test]
fn a_key_that_occurs_twice_counts_by_its_last_value() {
    let base = object(vec![("k", number("1")), ("k", object(vec![("a", number("2"))]))]);
    let over = object(vec![
        ("k", object(vec![("a", number("3"))])),
        ("k", object(vec![("b", number("4"))])),
    ]);
    let merged = deep_merge(base, over);
    let k = match member(&merged, "k") {
        Some(value) => value,
        None => panic!("k is missing"),
    };
    assert_eq!(member(k, "a"), Some(&number("2")));
    assert_eq!(member(k, "b"), Some(&number("4")));
    match merged {
        Json::Object(members) => assert_eq!(members.len(), 1),
        _ => panic!("an object was expected"),
    }
}
