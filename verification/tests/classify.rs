use rainbow::classify::{
    classify, classify_chars, contains_highlight, is_error_chars, pattern_chars, rule_holds,
    rule_table, Category, Context, Rule,
};

fn token_chars(s: &str) -> Vec<char> {
    s.chars().collect()
}

fn no_pattern() -> Context {
    Context { highlight: None }
}

fn with_pattern(pattern: &str) -> Context {
    Context { highlight: Some(pattern.to_string()) }
}

#[test]
fn the_rules_are_tried_in_order() {
    assert_eq!(
        rule_table(),
        [Rule::ErrorWord, Rule::HexMarker, Rule::IntegerLiteral, Rule::HighlightMatch]
    );
    assert_eq!(Rule::ErrorWord.category(), Category::Error);
    assert_eq!(Rule::HexMarker.category(), Category::Hex);
    assert_eq!(Rule::IntegerLiteral.category(), Category::Integer);
    assert_eq!(Rule::HighlightMatch.category(), Category::Highlight);
}

#[test]
fn error_words_are_errors() {
    assert_eq!(classify("error", &no_pattern()), Category::Error);
    assert_eq!(classify("err", &no_pattern()), Category::Error);
    assert_eq!(classify("error", &with_pattern("err")), Category::Error);
    assert_eq!(classify("err", &with_pattern("r")), Category::Error);
}

#[test]
fn error_words_are_matched_exactly() {
    assert_eq!(classify("Error", &no_pattern()), Category::Generic);
    assert_eq!(classify("ERR", &no_pattern()), Category::Generic);
    assert_eq!(classify("errors", &no_pattern()), Category::Generic);
    assert_eq!(classify("erro", &no_pattern()), Category::Generic);
    assert_eq!(classify("error:", &no_pattern()), Category::Generic);
    assert_eq!(classify("er", &no_pattern()), Category::Generic);
    assert!(is_error_chars(&token_chars("err")));
    assert!(is_error_chars(&token_chars("error")));
    assert!(!is_error_chars(&token_chars("")));
    assert!(!is_error_chars(&token_chars("erx")));
    assert!(!is_error_chars(&token_chars("errox")));
}

#[test]
fn a_token_with_the_hex_marker_is_hex() {
    assert_eq!(classify("0xFF", &no_pattern()), Category::Hex);
    assert_eq!(classify("0xZZ", &no_pattern()), Category::Hex);
    assert_eq!(classify("0x", &no_pattern()), Category::Hex);
    assert_eq!(classify("addr=0x10", &no_pattern()), Category::Hex);
    assert_eq!(classify("0x10", &with_pattern("10")), Category::Hex);
    assert_eq!(classify("0X10", &no_pattern()), Category::Generic);
    assert_eq!(classify("0-x", &no_pattern()), Category::Generic);
}

#[test]
fn an_integer_literal_is_an_integer() {
    assert_eq!(classify("42", &no_pattern()), Category::Integer);
    assert_eq!(classify("-42", &no_pattern()), Category::Integer);
    assert_eq!(classify("+42", &no_pattern()), Category::Integer);
    assert_eq!(classify("1000000", &no_pattern()), Category::Integer);
    assert_eq!(classify("9223372036854775807", &no_pattern()), Category::Integer);
    assert_eq!(classify("-9223372036854775808", &no_pattern()), Category::Integer);
    assert_eq!(classify("42", &with_pattern("4")), Category::Integer);
}

#[test]
fn what_does_not_fit_an_i64_is_no_integer() {
    assert_eq!(classify("9223372036854775808", &no_pattern()), Category::Generic);
    assert_eq!(classify("-9223372036854775809", &no_pattern()), Category::Generic);
    assert_eq!(classify("4.2", &no_pattern()), Category::Generic);
    assert_eq!(classify("42,", &no_pattern()), Category::Generic);
    assert_eq!(classify("-", &no_pattern()), Category::Generic);
    assert_eq!(classify("9223372036854775808", &with_pattern("808")), Category::Highlight);
}

#[test]
fn a_token_with_the_pattern_is_highlighted() {
    assert_eq!(classify("xfooy", &with_pattern("foo")), Category::Highlight);
    assert_eq!(classify("foo", &with_pattern("foo")), Category::Highlight);
    assert_eq!(classify("fo", &with_pattern("foo")), Category::Generic);
    assert_eq!(classify("Foo", &with_pattern("foo")), Category::Generic);
    assert_eq!(classify("foo", &no_pattern()), Category::Generic);
}

#[test]
fn an_empty_pattern_highlights_nothing() {
    assert_eq!(classify("foo", &with_pattern("")), Category::Generic);
    assert!(!contains_highlight("foo", &Some(String::new())));
    assert!(!contains_highlight("", &Some(String::new())));
}

#[test]
fn contains_highlight_looks_for_the_pattern() {
    assert!(contains_highlight("xfooy", &Some("foo".to_string())));
    assert!(contains_highlight("error", &Some("err".to_string())));
    assert!(!contains_highlight("xfoy", &Some("foo".to_string())));
    assert!(!contains_highlight("xfooy", &None));
    assert!(!contains_highlight("", &Some("foo".to_string())));
}

#[test]
fn every_other_token_is_generic() {
    for token in ["at", "code", "hello", "x0", "12:00:01", "¿", "e", "0", "x"] {
        let expected = if token == "0" { Category::Integer } else { Category::Generic };
        assert_eq!(classify(token, &no_pattern()), expected, "{:?}", token);
    }
}

#[test]
fn no_token_is_classified_as_a_timestamp() {
    for token in ["12:00:01", "error", "0xFF", "42", "at", ""] {
        assert_ne!(classify(token, &no_pattern()), Category::Timestamp);
        assert_ne!(classify(token, &with_pattern("0")), Category::Timestamp);
    }
}

#[test]
fn each_rule_alone() {
    let none: Option<Vec<char>> = None;
    let pattern = Some(token_chars("rr"));
    assert!(rule_holds(Rule::ErrorWord, &token_chars("error"), &none));
    assert!(!rule_holds(Rule::HexMarker, &token_chars("error"), &none));
    assert!(!rule_holds(Rule::IntegerLiteral, &token_chars("error"), &none));
    assert!(!rule_holds(Rule::HighlightMatch, &token_chars("error"), &none));
    assert!(rule_holds(Rule::HighlightMatch, &token_chars("error"), &pattern));
    assert!(rule_holds(Rule::HexMarker, &token_chars("a0x"), &none));
    assert!(rule_holds(Rule::IntegerLiteral, &token_chars("-7"), &none));
    assert!(!rule_holds(Rule::IntegerLiteral, &token_chars(""), &none));
    assert!(!rule_holds(Rule::HighlightMatch, &token_chars("abc"), &Some(Vec::new())));
    assert_eq!(classify_chars(&token_chars("error"), &pattern), Category::Error);
    assert_eq!(classify_chars(&token_chars("worry"), &pattern), Category::Highlight);
    assert_eq!(classify_chars(&token_chars("worry"), &none), Category::Generic);
}

#[test]
fn pattern_chars_reads_the_context() {
    assert_eq!(pattern_chars(&None), None);
    assert_eq!(pattern_chars(&Some(String::new())), Some(Vec::new()));
    assert_eq!(pattern_chars(&Some("é0".to_string())), Some(vec!['é', '0']));
}
