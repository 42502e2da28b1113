use tmux_watch::text::{
    concat2, concat3, decimal_text, is_white_space, join, same_text, signed_decimal_text,
    split_text, starts_with, trim, zero_padded_text,
};

#[test]
fn texts_are_cut_and_joined() {
    assert_eq!(split_text("a,b,,c", ','), vec!["a", "b", "", "c"]);
    assert_eq!(split_text("", ','), vec![""]);
    assert_eq!(split_text(",", ','), vec!["", ""]);
    let pieces = split_text("é\n❯ 1.\n", '\n');
    assert_eq!(pieces, vec!["é", "❯ 1.", ""]);
    assert_eq!(join(&pieces, "\n"), "é\n❯ 1.\n");
    assert_eq!(join(&[], "\n"), "");
    assert_eq!(concat2("a", "b"), "ab");
    assert_eq!(concat3("a", "b", "c"), "abc");
}

#[test]
fn white_space_is_that_of_unicode() {
    for n in 0u32..0x11_0000 {
        if let Some(c) = char::from_u32(n) {
            assert_eq!(is_white_space(c), c.is_whitespace(), "{n:x}");
        }
    }
    assert_eq!(trim("\u{3000} a b \t\n"), "a b");
    assert_eq!(trim(" \u{2003} "), "");
}

#[test]
fn numbers_are_written_in_decimal() {
    assert_eq!(decimal_text(0), "0");
    assert_eq!(decimal_text(1_000_230), "1000230");
    assert_eq!(decimal_text(u128::MAX), format!("{}", u128::MAX));
    assert_eq!(signed_decimal_text(i64::MIN), format!("{}", i64::MIN));
    assert_eq!(signed_decimal_text(42), "42");
    assert_eq!(zero_padded_text(7, 3), "007");
    assert_eq!(zero_padded_text(1234, 3), "1234");
    assert_eq!(zero_padded_text(0, 0), "0");
}

#[test]
fn texts_are_compared_by_their_characters() {
    assert!(same_text("é", "é"));
    assert!(!same_text("a", "ab"));
    assert!(starts_with("prod-watch", "prod-"));
    assert!(starts_with("prod", ""));
    assert!(!starts_with("pro", "prod"));
    assert!(!starts_with("xrod", "prod"));
}
