use rainbow::token::tokenize;

fn sample_lines() -> Vec<&'static str> {
    vec![
        "",
        " ",
        "   \t  ",
        "a",
        " a",
        "a ",
        "a b",
        "a  b",
        "  a   b  ",
        "12:00:01 error at 0xFF code 42",
        "tab\tseparated\twords",
        "line\r\n",
        "no-break\u{A0}space",
        "ideographic\u{3000}space and\u{2003}em",
        "zero\u{200B}width is no space",
        "¿qué? él",
        "\u{1b}[0m x",
    ]
}

#[test]
fn tokenize_agrees_with_split_whitespace() {
    for line in sample_lines() {
        let expected: Vec<String> = line.split_whitespace().map(String::from).collect();
        assert_eq!(tokenize(line), expected, "{:?}", line);
    }
}

#[test]
fn tokenize_examples() {
    assert_eq!(tokenize(""), Vec::<String>::new());
    assert_eq!(tokenize(" \t\n"), Vec::<String>::new());
    assert_eq!(tokenize("a"), vec!["a".to_string()]);
    assert_eq!(tokenize("  a   bc  "), vec!["a".to_string(), "bc".to_string()]);
    assert_eq!(
        tokenize("12:00:01 error at 0xFF code 42"),
        vec!["12:00:01", "error", "at", "0xFF", "code", "42"]
    );
}

#[test]
fn tokens_keep_their_order_and_hold_no_whitespace() {
    for line in sample_lines() {
        let tokens = tokenize(line);
        let mut from = 0;
        for token in &tokens {
            assert!(!token.is_empty());
            assert!(!token.chars().any(char::is_whitespace));
            let at = line[from..].find(token.as_str()).expect("the token stands in the line");
            assert!(line[from..from + at].chars().all(char::is_whitespace));
            from += at + token.len();
        }
        assert!(line[from..].chars().all(char::is_whitespace));
    }
}

#[test]
fn tokens_of_two_pieces_that_meet_at_whitespace() {
    let pieces = [("a b ", "c d"), ("a b", " c d"), ("", "x y"), ("x y", ""), ("a\t", "\tb")];
    for (first, second) in pieces {
        let whole = format!("{}{}", first, second);
        let mut expected = tokenize(first);
        expected.extend(tokenize(second));
        assert_eq!(tokenize(&whole), expected);
    }
    assert_eq!(tokenize("ab"), vec!["ab".to_string()]);
    assert_ne!(tokenize("ab"), vec!["a".to_string(), "b".to_string()]);
}
