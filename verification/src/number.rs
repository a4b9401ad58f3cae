//! Decimal integer literals: what a run of digits denotes and which
//! character sequences are literals of `i64` and of `usize`.

use crate::text::chars_of;
use vstd::prelude::*;

verus! {

/// Whether `c` is one of the digits `0` to `9`.
pub open spec fn is_digit(c: char) -> bool {
    0x30 <= c as u32 <= 0x39
}

/// The value of the digit `c`.
pub open spec fn digit_value(c: char) -> nat
    recommends
        is_digit(c),
{
    (c as u32 - 0x30) as nat
}

/// Whether every character of `s` is a digit.
pub open spec fn all_digits(s: Seq<char>) -> bool {
    forall|i: int| 0 <= i < s.len() ==> is_digit(#[trigger] s[i])
}

/// The number that the digits of `s` denote in base ten, most significant
/// digit first.
pub open spec fn decimal_value(s: Seq<char>) -> nat
    recommends
        all_digits(s),
    decreases s.len(),
{
    if s.len() == 0 {
        0
    } else {
        10 * decimal_value(s.drop_last()) + digit_value(s.last())
    }
}

/// The number that `s` denotes if `s` is a run of one or more digits.
pub open spec fn unsigned_decimal(s: Seq<char>) -> Option<nat> {
    if s.len() > 0 && all_digits(s) {
        Some(decimal_value(s))
    } else {
        None
    }
}

/// The number that `s` denotes if `s` is a run of one or more digits and the
/// number is at most `limit`.
pub open spec fn bounded_decimal(s: Seq<char>, limit: u64) -> Option<u64> {
    match unsigned_decimal(s) {
        Some(v) => if v <= limit {
            Some(v as u64)
        } else {
            None
        },
        None => None,
    }
}

/// The integer that `s` denotes if `s` is an optional sign, `+` or `-`,
/// followed by one or more digits.
pub open spec fn signed_decimal(s: Seq<char>) -> Option<int> {
    if s.len() > 0 && s[0] == '-' {
        match unsigned_decimal(s.skip(1)) {
            Some(v) => Some(-(v as int)),
            None => None,
        }
    } else if s.len() > 0 && s[0] == '+' {
        match unsigned_decimal(s.skip(1)) {
            Some(v) => Some(v as int),
            None => None,
        }
    } else {
        match unsigned_decimal(s) {
            Some(v) => Some(v as int),
            None => None,
        }
    }
}

/// The `i64` that `s` denotes: a signed decimal whose value fits the type.
pub open spec fn i64_literal(s: Seq<char>) -> Option<i64> {
    match signed_decimal(s) {
        Some(v) => if i64::MIN <= v <= i64::MAX {
            Some(v as i64)
        } else {
            None
        },
        None => None,
    }
}

/// The `usize` that `s` denotes: an optional `+` followed by one or more
/// digits whose value fits the type. A `-` is never accepted.
pub open spec fn usize_literal(s: Seq<char>) -> Option<usize> {
    let digits = if s.len() > 0 && s[0] == '+' {
        s.skip(1)
    } else {
        s
    };
    match unsigned_decimal(digits) {
        Some(v) => if v <= usize::MAX {
            Some(v as usize)
        } else {
            None
        },
        None => None,
    }
}

/// The digit whose value is `d`.
pub open spec fn digit_char(d: nat) -> char
    recommends
        d < 10,
{
    ((0x30 + d) as u8) as char
}

/// The decimal digits of `n`, most significant digit first, without leading
/// zeros; zero is the single digit `0`.
pub open spec fn decimal_digits(n: nat) -> Seq<char>
    decreases n,
{
    if n < 10 {
        seq![digit_char(n)]
    } else {
        decimal_digits(n / 10).push(digit_char(n % 10))
    }
}

/// A run of digits denotes at least as much as each of its prefixes.
pub proof fn lemma_decimal_value_prefix(s: Seq<char>, k: int)
    requires
        0 <= k <= s.len(),
    ensures
        decimal_value(s.take(k)) <= decimal_value(s),
    decreases s.len(),
{
    if k == s.len() {
        assert(s.take(k) =~= s);
    } else {
        lemma_decimal_value_prefix(s.drop_last(), k);
        assert(s.drop_last().take(k) =~= s.take(k));
    }
}

/// Appending the digit `c` to `s` multiplies the value by ten and adds the
/// digit.
pub proof fn lemma_decimal_value_push(s: Seq<char>, c: char)
    ensures
        decimal_value(s.push(c)) == 10 * decimal_value(s) + digit_value(c),
{
    assert(s.push(c).drop_last() =~= s);
}

/// The decimal digits of a number are digits, and they denote the number.
pub proof fn lemma_decimal_digits(n: nat)
    ensures
        decimal_digits(n).len() > 0,
        all_digits(decimal_digits(n)),
        decimal_value(decimal_digits(n)) == n,
        unsigned_decimal(decimal_digits(n)) == Some(n),
    decreases n,
{
    if n < 10 {
        let s = decimal_digits(n);
        assert(s.drop_last() =~= Seq::<char>::empty());
        assert(decimal_value(s.drop_last()) == 0);
    } else {
        let front = decimal_digits(n / 10);
        let last = digit_char(n % 10);
        lemma_decimal_digits(n / 10);
        lemma_decimal_value_push(front, last);
        assert forall|i: int| 0 <= i < front.push(last).len() implies is_digit(
            #[trigger] front.push(last)[i],
        ) by {
            if i < front.len() {
                assert(front.push(last)[i] == front[i]);
            }
        }
    }
}

/// Reads `chars[start..end]` as a run of digits that denotes at most `limit`.
pub fn parse_digits(chars: &Vec<char>, start: usize, end: usize, limit: u64) -> (r: Option<u64>)
    requires
        start <= end <= chars.len(),
    ensures
        r == bounded_decimal(chars@.subrange(start as int, end as int), limit),
{
    let ghost whole = chars@.subrange(start as int, end as int);
    if start == end {
        return None;
    }
    let mut acc: u64 = 0;
    let mut i: usize = start;
    while i < end
        invariant
            start <= i <= end <= chars.len(),
            whole == chars@.subrange(start as int, end as int),
            all_digits(whole.take(i - start)),
            acc == decimal_value(whole.take(i - start)),
            acc <= limit,
        decreases end - i,
    {
        let c: char = chars[i];
        let code: u32 = c as u32;
        if code < 0x30 || code > 0x39 {
            assert(whole[i - start] == c);
            return None;
        }
        let digit: u64 = (code - 0x30) as u64;
        proof {
            let before = whole.take(i - start);
            let after = whole.take(i - start + 1);
            assert(whole[i - start] == c);
            assert(after =~= before.push(c));
            lemma_decimal_value_push(before, c);
            lemma_decimal_value_prefix(whole, i - start + 1);
            assert(all_digits(after)) by {
                assert forall|j: int| 0 <= j < after.len() implies is_digit(#[trigger] after[j]) by {
                    if j < before.len() {
                        assert(after[j] == before[j]);
                    }
                }
            }
        }
        let next: u64 = match acc.checked_mul(10) {
            Some(tens) => match tens.checked_add(digit) {
                Some(n) => n,
                None => {
                    return None;
                },
            },
            None => {
                return None;
            },
        };
        if next > limit {
            return None;
        }
        acc = next;
        i += 1;
    }
    assert(whole.take(end - start) =~= whole);
    Some(acc)
}

/// Reads `chars[start..end]` as a literal of `i64`.
pub fn parse_i64_in(chars: &Vec<char>, start: usize, end: usize) -> (r: Option<i64>)
    requires
        start <= end <= chars.len(),
    ensures
        r == i64_literal(chars@.subrange(start as int, end as int)),
{
    let ghost whole = chars@.subrange(start as int, end as int);
    if start == end {
        return None;
    }
    let first: char = chars[start];
    assert(whole[0] == first);
    if first == '-' {
        assert(whole.skip(1) =~= chars@.subrange(start + 1, end as int));
        match parse_digits(chars, start + 1, end, 0x8000_0000_0000_0000) {
            Some(m) => if m == 0x8000_0000_0000_0000 {
                Some(i64::MIN)
            } else {
                Some(-(m as i64))
            },
            None => None,
        }
    } else if first == '+' {
        assert(whole.skip(1) =~= chars@.subrange(start + 1, end as int));
        match parse_digits(chars, start + 1, end, 0x7fff_ffff_ffff_ffff) {
            Some(m) => Some(m as i64),
            None => None,
        }
    } else {
        match parse_digits(chars, start, end, 0x7fff_ffff_ffff_ffff) {
            Some(m) => Some(m as i64),
            None => None,
        }
    }
}

/// Reads `chars[start..end]` as a literal of `usize`.
pub fn parse_usize_in(chars: &Vec<char>, start: usize, end: usize) -> (r: Option<usize>)
    requires
        start <= end <= chars.len(),
    ensures
        r == usize_literal(chars@.subrange(start as int, end as int)),
{
    let ghost whole = chars@.subrange(start as int, end as int);
    if start == end {
        return None;
    }
    assert(whole[0] == chars@[start as int]);
    let from: usize = if chars[start] == '+' {
        assert(whole.skip(1) =~= chars@.subrange(start + 1, end as int));
        start + 1
    } else {
        start
    };
    match parse_digits(chars, from, end, usize::MAX as u64) {
        Some(m) => Some(m as usize),
        None => None,
    }
}

/// The text of the digit whose value is `d`.
fn digit_text(d: usize) -> (text: &'static str)
    requires
        d < 10,
    ensures
        text@ == seq![digit_char(d as nat)],
{
    proof {
        reveal_strlit("0");
        reveal_strlit("1");
        reveal_strlit("2");
        reveal_strlit("3");
        reveal_strlit("4");
        reveal_strlit("5");
        reveal_strlit("6");
        reveal_strlit("7");
        reveal_strlit("8");
        reveal_strlit("9");
    }
    let text = if d == 0 {
        "0"
    } else if d == 1 {
        "1"
    } else if d == 2 {
        "2"
    } else if d == 3 {
        "3"
    } else if d == 4 {
        "4"
    } else if d == 5 {
        "5"
    } else if d == 6 {
        "6"
    } else if d == 7 {
        "7"
    } else if d == 8 {
        "8"
    } else {
        "9"
    };
    assert(text@ =~= seq![digit_char(d as nat)]);
    text
}

/// Writes `n` in decimal digits.
pub fn decimal_text(n: usize) -> (text: String)
    ensures
        text@ == decimal_digits(n as nat),
    decreases n,
{
    if n < 10 {
        digit_text(n).to_owned()
    } else {
        let mut text = decimal_text(n / 10);
        text.append(digit_text(n % 10));
        assert(text@ =~= decimal_digits(n as nat));
        text
    }
}

/// Reads `text` as a literal of `i64`: an optional sign followed by digits,
/// with nothing before or after, and a value that fits.
pub fn parse_i64(text: &str) -> (r: Option<i64>)
    ensures
        r == i64_literal(text@),
{
    let chars = chars_of(text);
    assert(chars@.subrange(0, chars@.len() as int) =~= text@);
    parse_i64_in(&chars, 0, chars.len())
}

/// Reads `text` as a literal of `usize`: an optional `+` followed by digits,
/// with nothing before or after, and a value that fits.
pub fn parse_usize(text: &str) -> (r: Option<usize>)
    ensures
        r == usize_literal(text@),
{
    let chars = chars_of(text);
    assert(chars@.subrange(0, chars@.len() as int) =~= text@);
    parse_usize_in(&chars, 0, chars.len())
}

} // verus!
