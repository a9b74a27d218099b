use marketview::text::{
    chars_of, ends_with, eq_ignore_ascii_case, is_text, push_decimal, same_text, split_whitespace,
};

#[test]
fn texts_are_compared() {
    assert!(same_text("abc", "abc"));
    assert!(!same_text("abc", "abd"));
    assert!(!same_text("abc", "ab"));
    assert!(eq_ignore_ascii_case(&chars_of("SpOt"), "spot"));
    assert!(!eq_ignore_ascii_case(&chars_of("spots"), "spot"));
    assert!(ends_with("BTC-USDT", "USDT"));
    assert!(!ends_with("USDT", "BTC-USDT"));
    assert!(ends_with("USDT", ""));
    assert!(is_text(&Some("live".to_string()), "live"));
    assert!(!is_text(&Some("dead".to_string()), "live"));
    assert!(!is_text(&None, ""));
}

#[test]
fn words_are_split_at_whitespace() {
    let words = |s: &str| -> Vec<String> {
        split_whitespace(s).iter().map(|word| word.iter().collect()).collect()
    };
    for text in ["", "  ", "a", " a b\tc\n", "a\u{a0}b", "a\u{3000}b ", "ab"] {
        let expected: Vec<String> = text.split_whitespace().map(|w| w.to_string()).collect();
        assert_eq!(words(text), expected);
    }
}

#[test]
fn numbers_are_written_in_decimal() {
    for n in [0, 9, 10, 100, 12_345, u64::MAX] {
        let mut out = "n=".to_string();
        push_decimal(&mut out, n);
        assert_eq!(out, format!("n={n}"));
    }
}
