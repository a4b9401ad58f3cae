use rainbow::number::{
    decimal_text, parse_digits, parse_i64, parse_i64_in, parse_usize, parse_usize_in,
};

fn digits_chars(s: &str) -> Vec<char> {
    s.chars().collect()
}

fn number_samples() -> Vec<String> {
    let mut all: Vec<String> = vec![
        "", "0", "-0", "+0", "7", "42", "-42", "+42", "1000000", "00012", "-00012",
        "9223372036854775807", "9223372036854775808", "+9223372036854775807",
        "+9223372036854775808", "-9223372036854775808", "-9223372036854775809",
        "18446744073709551615", "18446744073709551616", "4294967295", "4294967296",
        "99999999999999999999", "-99999999999999999999", "-", "+", "--1", "+-1", "-+1", "++1",
        "1-", "1+", "12a", "a12", " 12", "12 ", "1 2", "1_000", "0x10", "0xFF", "1e3", "1.0",
        "١٢", "１２", "²", "error", "err", "\u{1b}[0m", "12\n",
    ]
    .into_iter()
    .map(String::from)
    .collect();
    let mut zeros = String::new();
    for _ in 0..40 {
        zeros.push('0');
    }
    all.push(format!("{}1", zeros));
    all.push(format!("-{}9223372036854775808", zeros));
    all.push(format!("{}9223372036854775808", zeros));
    all.push(zeros);
    all
}

#[test]
fn parse_i64_agrees_with_std() {
    for text in number_samples() {
        assert_eq!(parse_i64(&text), text.parse::<i64>().ok(), "{:?}", text);
    }
}

#[test]
fn parse_usize_agrees_with_std() {
    for text in number_samples() {
        assert_eq!(parse_usize(&text), text.parse::<usize>().ok(), "{:?}", text);
    }
}

#[test]
fn parse_i64_examples() {
    assert_eq!(parse_i64("-42"), Some(-42));
    assert_eq!(parse_i64("1000000"), Some(1000000));
    assert_eq!(parse_i64("+5"), Some(5));
    assert_eq!(parse_i64("007"), Some(7));
    assert_eq!(parse_i64("9223372036854775807"), Some(i64::MAX));
    assert_eq!(parse_i64("-9223372036854775808"), Some(i64::MIN));
    assert_eq!(parse_i64("9223372036854775808"), None);
    assert_eq!(parse_i64("-9223372036854775809"), None);
    assert_eq!(parse_i64(""), None);
    assert_eq!(parse_i64("-"), None);
    assert_eq!(parse_i64("0xFF"), None);
    assert_eq!(parse_i64("4 2"), None);
}

#[test]
fn parse_usize_examples() {
    assert_eq!(parse_usize("0"), Some(0));
    assert_eq!(parse_usize("+3"), Some(3));
    assert_eq!(parse_usize("-3"), None);
    assert_eq!(parse_usize("-0"), None);
    assert_eq!(parse_usize(""), None);
    assert_eq!(parse_usize("+"), None);
    assert_eq!(parse_usize(&usize::MAX.to_string()), Some(usize::MAX));
    assert_eq!(parse_usize("340282366920938463463374607431768211456"), None);
}

#[test]
fn parse_digits_keeps_to_its_range_and_limit() {
    let all = digits_chars("ab123cd");
    assert_eq!(parse_digits(&all, 2, 5, 1000), Some(123));
    assert_eq!(parse_digits(&all, 2, 5, 123), Some(123));
    assert_eq!(parse_digits(&all, 2, 5, 122), None);
    assert_eq!(parse_digits(&all, 2, 4, 122), Some(12));
    assert_eq!(parse_digits(&all, 2, 2, 1000), None);
    assert_eq!(parse_digits(&all, 1, 5, 1000), None);
    assert_eq!(parse_digits(&all, 2, 6, 1000), None);
    let big = digits_chars("18446744073709551616");
    assert_eq!(parse_digits(&big, 0, 20, u64::MAX), None);
    assert_eq!(parse_digits(&big, 0, 19, u64::MAX), Some(1844674407370955161));
}

#[test]
fn parse_in_a_range_reads_the_range_alone() {
    let all = digits_chars("x-17y+8");
    assert_eq!(parse_i64_in(&all, 1, 4), Some(-17));
    assert_eq!(parse_i64_in(&all, 0, 4), None);
    assert_eq!(parse_i64_in(&all, 1, 5), None);
    assert_eq!(parse_i64_in(&all, 5, 7), Some(8));
    assert_eq!(parse_i64_in(&all, 3, 3), None);
    assert_eq!(parse_usize_in(&all, 5, 7), Some(8));
    assert_eq!(parse_usize_in(&all, 6, 7), Some(8));
    assert_eq!(parse_usize_in(&all, 1, 4), None);
    assert_eq!(parse_usize_in(&all, 2, 4), Some(17));
    assert_eq!(parse_usize_in(&all, 5, 6), None);
}

#[test]
fn decimal_text_agrees_with_std() {
    let numbers = [
        0, 1, 9, 10, 11, 99, 100, 101, 1000, 9600, 65535, 65536, 4294967295, usize::MAX - 1,
        usize::MAX,
    ];
    for n in numbers {
        assert_eq!(decimal_text(n), n.to_string());
    }
    assert_eq!(decimal_text(0), "0");
    assert_eq!(decimal_text(7), "7");
    assert_eq!(decimal_text(9600), "9600");
}

#[test]
fn what_is_written_is_read_back() {
    for n in [0, 5, 10, 42, 1234567890, usize::MAX] {
        assert_eq!(parse_usize(&decimal_text(n)), Some(n));
    }
}
