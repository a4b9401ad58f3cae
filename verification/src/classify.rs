//! The category of a token: an ordered table of rules, of which the first
//! that holds decides.

use crate::number::{i64_literal, is_digit, parse_i64_in};
use crate::text::{chars_of, contains, contains_chars, occurs_at, occurs_in};
use vstd::prelude::*;

verus! {

/// What is fixed for a run: the pattern to highlight, if one was given.
#[derive(Debug)]
pub struct Context {
    pub highlight: Option<String>,
}

impl Context {
    /// The pattern to highlight, as characters.
    pub open spec fn pattern(&self) -> Option<Seq<char>> {
        self.highlight.deep_view()
    }
}

/// The pattern that `pattern` holds, as a sequence.
pub open spec fn pattern_view(pattern: Option<Vec<char>>) -> Option<Seq<char>> {
    match pattern {
        Some(p) => Some(p@),
        None => None,
    }
}

/// The category under which a token is shown.
#[derive(Clone, Copy, Debug, PartialEq, Eq, Structural)]
pub enum Category {
    /// The first token of a line.
    Timestamp,
    /// The word `err` or `error`.
    Error,
    /// A token that holds `0x`.
    Hex,
    /// A literal of `i64`.
    Integer,
    /// A token that holds the pattern to highlight.
    Highlight,
    /// Any other token.
    Generic,
}

/// A test that a token is put to.
#[derive(Clone, Copy, Debug, PartialEq, Eq, Structural)]
pub enum Rule {
    /// The token is `err` or `error`.
    ErrorWord,
    /// The token holds `0x`.
    HexMarker,
    /// The token is a literal of `i64`.
    IntegerLiteral,
    /// The token holds the pattern to highlight.
    HighlightMatch,
}

/// Whether `token` is exactly `err` or `error`.
pub open spec fn is_error_word(token: Seq<char>) -> bool {
    token == "err"@ || token == "error"@
}

/// Whether `token` holds the marker `0x`.
pub open spec fn has_hex_marker(token: Seq<char>) -> bool {
    occurs_in(token, "0x"@)
}

/// Whether `token` is a literal of `i64`.
pub open spec fn is_integer(token: Seq<char>) -> bool {
    i64_literal(token) is Some
}

/// Whether `token` holds the pattern to highlight. Without a pattern, and
/// with an empty one, no token does.
pub open spec fn is_highlighted(token: Seq<char>, pattern: Option<Seq<char>>) -> bool {
    match pattern {
        Some(p) => p.len() > 0 && occurs_in(token, p),
        None => false,
    }
}

impl Rule {
    /// Whether the rule holds of `token`.
    pub open spec fn holds(self, token: Seq<char>, pattern: Option<Seq<char>>) -> bool {
        match self {
            Rule::ErrorWord => is_error_word(token),
            Rule::HexMarker => has_hex_marker(token),
            Rule::IntegerLiteral => is_integer(token),
            Rule::HighlightMatch => is_highlighted(token, pattern),
        }
    }

    /// The category that the rule gives.
    pub open spec fn category_of(self) -> Category {
        match self {
            Rule::ErrorWord => Category::Error,
            Rule::HexMarker => Category::Hex,
            Rule::IntegerLiteral => Category::Integer,
            Rule::HighlightMatch => Category::Highlight,
        }
    }

    /// The category that the rule gives.
    pub fn category(self) -> (c: Category)
        ensures
            c == self.category_of(),
    {
        match self {
            Rule::ErrorWord => Category::Error,
            Rule::HexMarker => Category::Hex,
            Rule::IntegerLiteral => Category::Integer,
            Rule::HighlightMatch => Category::Highlight,
        }
    }
}

/// The rules in the order in which they are tried.
pub open spec fn precedence() -> Seq<Rule> {
    seq![Rule::ErrorWord, Rule::HexMarker, Rule::IntegerLiteral, Rule::HighlightMatch]
}

/// The category that the first rule of `rules` that holds gives to `token`,
/// and `Generic` where none holds.
pub open spec fn first_match(rules: Seq<Rule>, token: Seq<char>, pattern: Option<Seq<char>>)
    -> Category
    decreases rules.len(),
{
    if rules.len() == 0 {
        Category::Generic
    } else if rules[0].holds(token, pattern) {
        rules[0].category_of()
    } else {
        first_match(rules.skip(1), token, pattern)
    }
}

/// The category of a token that is not the first of its line.
pub open spec fn classify_token(token: Seq<char>, pattern: Option<Seq<char>>) -> Category {
    first_match(precedence(), token, pattern)
}

/// The rules in the order in which they are tried.
pub fn rule_table() -> (table: [Rule; 4])
    ensures
        table@ == precedence(),
{
    let table = [Rule::ErrorWord, Rule::HexMarker, Rule::IntegerLiteral, Rule::HighlightMatch];
    assert(table@ =~= precedence());
    table
}

/// Tells whether `token` is exactly `err` or `error`.
pub fn is_error_chars(token: &Vec<char>) -> (b: bool)
    ensures
        b == is_error_word(token@),
{
    proof {
        reveal_strlit("err");
        reveal_strlit("error");
    }
    if token.len() == 3 {
        let b = token[0] == 'e' && token[1] == 'r' && token[2] == 'r';
        assert(b == (token@ =~= "err"@));
        b
    } else if token.len() == 5 {
        let b = token[0] == 'e' && token[1] == 'r' && token[2] == 'r' && token[3] == 'o'
            && token[4] == 'r';
        assert(b == (token@ =~= "error"@));
        b
    } else {
        false
    }
}

/// Tells whether `rule` holds of `token`.
pub fn rule_holds(rule: Rule, token: &Vec<char>, pattern: &Option<Vec<char>>) -> (b: bool)
    ensures
        b == rule.holds(token@, pattern_view(*pattern)),
{
    match rule {
        Rule::ErrorWord => is_error_chars(token),
        Rule::HexMarker => {
            let marker = chars_of("0x");
            contains_chars(token, &marker)
        },
        Rule::IntegerLiteral => {
            assert(token@.subrange(0, token@.len() as int) =~= token@);
            parse_i64_in(token, 0, token.len()).is_some()
        },
        Rule::HighlightMatch => match pattern {
            Some(p) => p.len() > 0 && contains_chars(token, p),
            None => false,
        },
    }
}

/// The category of the token `token`, by the first rule that holds.
pub fn classify_chars(token: &Vec<char>, pattern: &Option<Vec<char>>) -> (c: Category)
    ensures
        c == classify_token(token@, pattern_view(*pattern)),
{
    let ghost shown = pattern_view(*pattern);
    let table = rule_table();
    let mut i: usize = 0;
    assert(precedence().skip(0) =~= precedence());
    while i < 4
        invariant
            i <= 4,
            table@ == precedence(),
            shown == pattern_view(*pattern),
            classify_token(token@, shown) == first_match(precedence().skip(i as int), token@, shown),
        decreases 4 - i,
    {
        let rule = table[i];
        assert(precedence().skip(i as int)[0] == rule);
        assert(precedence().skip(i as int).skip(1) =~= precedence().skip(i + 1));
        if rule_holds(rule, token, pattern) {
            return rule.category();
        }
        i += 1;
    }
    Category::Generic
}

/// The characters of the pattern that `highlight` holds.
pub fn pattern_chars(highlight: &Option<String>) -> (pattern: Option<Vec<char>>)
    ensures
        pattern_view(pattern) == highlight.deep_view(),
{
    match highlight {
        Some(p) => Some(chars_of(p.as_str())),
        None => None,
    }
}

/// Tells whether `candidate` holds the pattern to highlight.
pub fn contains_highlight(candidate: &str, highlight: &Option<String>) -> (b: bool)
    ensures
        b == is_highlighted(candidate@, highlight.deep_view()),
{
    match highlight {
        Some(pattern) => !pattern.as_str().is_empty() && contains(candidate, pattern.as_str()),
        None => false,
    }
}

/// The category of `token`, a token that is not the first of its line.
pub fn classify(token: &str, context: &Context) -> (c: Category)
    ensures
        c == classify_token(token@, context.pattern()),
{
    let chars = chars_of(token);
    let pattern = pattern_chars(&context.highlight);
    classify_chars(&chars, &pattern)
}

/// The table read as a chain: each rule decides only where no earlier rule
/// holds, and a token of which none holds is generic.
pub proof fn lemma_classify_chain(token: Seq<char>, pattern: Option<Seq<char>>)
    ensures
        classify_token(token, pattern) == if is_error_word(token) {
            Category::Error
        } else if has_hex_marker(token) {
            Category::Hex
        } else if is_integer(token) {
            Category::Integer
        } else if is_highlighted(token, pattern) {
            Category::Highlight
        } else {
            Category::Generic
        },
{
    let rules = precedence();
    reveal_with_fuel(first_match, 5);
    assert(rules.skip(1)[0] == Rule::HexMarker);
    assert(rules.skip(1).skip(1)[0] == Rule::IntegerLiteral);
    assert(rules.skip(1).skip(1).skip(1)[0] == Rule::HighlightMatch);
    assert(rules.skip(1).skip(1).skip(1).skip(1).len() == 0);
}

/// No rule gives the category of the first token.
pub proof fn lemma_classify_is_not_timestamp(token: Seq<char>, pattern: Option<Seq<char>>)
    ensures
        classify_token(token, pattern) != Category::Timestamp,
{
    lemma_classify_chain(token, pattern);
}

/// The words `err` and `error` are errors, whatever else holds of them.
pub proof fn lemma_error_word_wins(token: Seq<char>, pattern: Option<Seq<char>>)
    requires
        is_error_word(token),
    ensures
        classify_token(token, pattern) == Category::Error,
{
    lemma_classify_chain(token, pattern);
}

/// Neither error word holds the marker `0x`, and neither is an integer.
pub proof fn lemma_error_word_is_nothing_else(token: Seq<char>)
    requires
        is_error_word(token),
    ensures
        !has_hex_marker(token),
        !is_integer(token),
{
    reveal_strlit("err");
    reveal_strlit("error");
    reveal_strlit("0x");
    assert(token[0] == 'e');
    assert forall|i: int| !occurs_at(token, "0x"@, i) by {
        if occurs_at(token, "0x"@, i) {
            assert(token.subrange(i, i + 2)[0] == token[i]);
        }
    }
    assert(!is_digit('e'));
}

/// A literal of `i64` holds no marker `0x`.
pub proof fn lemma_integer_has_no_hex_marker(token: Seq<char>)
    requires
        is_integer(token),
    ensures
        !has_hex_marker(token),
{
    reveal_strlit("0x");
    assert forall|i: int| !occurs_at(token, "0x"@, i) by {
        if occurs_at(token, "0x"@, i) {
            assert(token.subrange(i, i + 2)[1] == token[i + 1]);
            assert(token[i + 1] == 'x');
            assert(!is_digit('x'));
            if token[0] == '-' || token[0] == '+' {
                assert(token.skip(1)[i] == token[i + 1]);
            }
        }
    }
}

/// A token that holds `0x` is hex: it is no error word, and that it cannot
/// be read as an integer does not make it generic.
pub proof fn lemma_hex_marker_wins(token: Seq<char>, pattern: Option<Seq<char>>)
    requires
        has_hex_marker(token),
    ensures
        classify_token(token, pattern) == Category::Hex,
{
    lemma_classify_chain(token, pattern);
    if is_error_word(token) {
        lemma_error_word_is_nothing_else(token);
    }
}

/// A literal of `i64` is an integer: it is no error word and holds no `0x`.
pub proof fn lemma_integer_wins(token: Seq<char>, pattern: Option<Seq<char>>)
    requires
        is_integer(token),
    ensures
        classify_token(token, pattern) == Category::Integer,
{
    lemma_classify_chain(token, pattern);
    lemma_integer_has_no_hex_marker(token);
    if is_error_word(token) {
        lemma_error_word_is_nothing_else(token);
    }
}

/// A token that holds the pattern is highlighted, unless it is an error
/// word, holds `0x` or is an integer.
pub proof fn lemma_highlight_after_the_others(token: Seq<char>, pattern: Seq<char>)
    requires
        pattern.len() > 0,
        occurs_in(token, pattern),
        !is_error_word(token),
        !has_hex_marker(token),
        !is_integer(token),
    ensures
        classify_token(token, Some(pattern)) == Category::Highlight,
{
    lemma_classify_chain(token, Some(pattern));
}

/// A token of which no rule holds is generic.
pub proof fn lemma_generic_is_the_rest(token: Seq<char>, pattern: Option<Seq<char>>)
    ensures
        classify_token(token, pattern) == Category::Generic <==> !is_error_word(token)
            && !has_hex_marker(token) && !is_integer(token) && !is_highlighted(token, pattern),
{
    lemma_classify_chain(token, pattern);
}

} // verus!
