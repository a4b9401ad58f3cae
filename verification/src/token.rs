//! Splitting a line into its whitespace-delimited tokens.

use crate::text::{chars_of, is_space, is_whitespace};
use vstd::prelude::*;
use vstd::seq_lib::lemma_flatten_concat;

verus! {

/// Whether no character of `s` is whitespace.
pub open spec fn no_space(s: Seq<char>) -> bool {
    forall|i: int| 0 <= i < s.len() ==> !is_space(#[trigger] s[i])
}

/// Whether `s` is a word: not empty and free of whitespace.
pub open spec fn is_word(s: Seq<char>) -> bool {
    s.len() > 0 && no_space(s)
}

/// The length of the longest prefix of `s` that holds no whitespace.
pub open spec fn word_len(s: Seq<char>) -> nat
    decreases s.len(),
{
    if s.len() == 0 || is_space(s[0]) {
        0
    } else {
        1 + word_len(s.skip(1))
    }
}

/// The tokens of `s`: its maximal runs of characters that are not
/// whitespace, from left to right.
pub open spec fn tokens(s: Seq<char>) -> Seq<Seq<char>>
    decreases s.len(),
    via tokens_decreases
{
    if s.len() == 0 {
        Seq::empty()
    } else if is_space(s[0]) {
        tokens(s.skip(1))
    } else {
        seq![s.take(word_len(s) as int)] + tokens(s.skip(word_len(s) as int))
    }
}

#[via_fn]
proof fn tokens_decreases(s: Seq<char>) {
    lemma_word_len(s);
}

/// The prefix measured by `word_len` is free of whitespace, lies within
/// `s`, and ends at the end of `s` or before a whitespace character.
pub proof fn lemma_word_len(s: Seq<char>)
    ensures
        word_len(s) <= s.len(),
        no_space(s.take(word_len(s) as int)),
        word_len(s) < s.len() ==> is_space(s[word_len(s) as int]),
        s.len() > 0 && !is_space(s[0]) ==> word_len(s) >= 1,
    decreases s.len(),
{
    if s.len() == 0 || is_space(s[0]) {
    } else {
        let rest = s.skip(1);
        lemma_word_len(rest);
        let n = word_len(s) as int;
        assert forall|i: int| 0 <= i < s.take(n).len() implies !is_space(#[trigger] s.take(n)[i]) by {
            if i > 0 {
                assert(s.take(n)[i] == rest.take(n - 1)[i - 1]);
            }
        }
        if n < s.len() {
            assert(s[n] == rest[n - 1]);
        }
    }
}

/// A run of `k` characters without whitespace that ends at the end of `s`
/// or before a whitespace character is the prefix that `word_len` measures.
pub proof fn lemma_word_len_is(s: Seq<char>, k: int)
    requires
        0 <= k <= s.len(),
        no_space(s.take(k)),
        k < s.len() ==> is_space(s[k]),
    ensures
        word_len(s) == k,
    decreases k,
{
    if k == 0 {
    } else {
        assert(s.take(k)[0] == s[0]);
        let rest = s.skip(1);
        assert forall|i: int| 0 <= i < rest.take(k - 1).len() implies !is_space(
            #[trigger] rest.take(k - 1)[i],
        ) by {
            assert(rest.take(k - 1)[i] == s.take(k)[i + 1]);
        }
        lemma_word_len_is(rest, k - 1);
    }
}

/// Every token is a word.
pub proof fn lemma_tokens_are_words(s: Seq<char>, i: int)
    requires
        0 <= i < tokens(s).len(),
    ensures
        is_word(tokens(s)[i]),
    decreases s.len(),
{
    if s.len() == 0 {
    } else if is_space(s[0]) {
        lemma_tokens_are_words(s.skip(1), i);
    } else {
        lemma_word_len(s);
        if i > 0 {
            lemma_tokens_are_words(s.skip(word_len(s) as int), i - 1);
        }
    }
}

/// Whitespace alone holds no token.
pub proof fn lemma_tokens_of_blank(s: Seq<char>)
    requires
        forall|i: int| 0 <= i < s.len() ==> is_space(#[trigger] s[i]),
    ensures
        tokens(s) == Seq::<Seq<char>>::empty(),
    decreases s.len(),
{
    if s.len() > 0 {
        assert forall|i: int| 0 <= i < s.skip(1).len() implies is_space(#[trigger] s.skip(1)[i]) by {
            assert(s.skip(1)[i] == s[i + 1]);
        }
        lemma_tokens_of_blank(s.skip(1));
    }
}

/// A word is its own single token.
pub proof fn lemma_tokens_of_word(w: Seq<char>)
    requires
        is_word(w),
    ensures
        tokens(w) == seq![w],
{
    let n = w.len() as int;
    assert(w.take(n) =~= w);
    lemma_word_len_is(w, n);
    assert(!is_space(w[0]));
    assert(tokens(w.skip(n)) =~= Seq::<Seq<char>>::empty());
    assert(seq![w] + Seq::<Seq<char>>::empty() =~= seq![w]);
}

/// Where two pieces of text meet at whitespace, the tokens of the whole are
/// the tokens of the first piece followed by those of the second: no token
/// is lost, none is added, and their order is kept.
pub proof fn lemma_tokens_concat(a: Seq<char>, b: Seq<char>)
    requires
        a.len() == 0 || b.len() == 0 || is_space(a.last()) || is_space(b[0]),
    ensures
        tokens(a + b) == tokens(a) + tokens(b),
    decreases a.len(),
{
    let whole = a + b;
    if a.len() == 0 {
        assert(whole =~= b);
        assert(tokens(a) + tokens(b) =~= tokens(b));
    } else if is_space(a[0]) {
        assert(whole.skip(1) =~= a.skip(1) + b);
        if a.len() > 1 {
            assert(a.skip(1).last() == a.last());
        }
        lemma_tokens_concat(a.skip(1), b);
    } else {
        lemma_word_len(a);
        let n = word_len(a) as int;
        assert(whole.take(n) =~= a.take(n));
        if n < a.len() {
            assert(whole[n] == a[n]);
        } else if b.len() > 0 {
            assert(whole[n] == b[0]);
            assert(a.take(n)[n - 1] == a.last());
        }
        lemma_word_len_is(whole, n);
        assert(whole.skip(n) =~= a.skip(n) + b);
        if n < a.len() {
            assert(a.skip(n).last() == a.last());
        }
        lemma_tokens_concat(a.skip(n), b);
        assert(seq![a.take(n)] + (tokens(a.skip(n)) + tokens(b)) =~= (seq![a.take(n)] + tokens(
            a.skip(n),
        )) + tokens(b));
    }
}

/// Filtering out whitespace leaves text without whitespace as it is.
proof fn lemma_no_space_is_kept(s: Seq<char>)
    requires
        no_space(s),
    ensures
        s.filter(|c: char| !is_space(c)) == s,
    decreases s.len(),
{
    let keep = |c: char| !is_space(c);
    reveal(Seq::filter);
    if s.len() > 0 {
        assert forall|i: int| 0 <= i < s.drop_last().len() implies !is_space(
            #[trigger] s.drop_last()[i],
        ) by {
            assert(s.drop_last()[i] == s[i]);
        }
        lemma_no_space_is_kept(s.drop_last());
        assert(!is_space(s[s.len() - 1]));
        assert(s.drop_last().push(s.last()) =~= s);
    }
}

/// The tokens hold every character of the text but its whitespace, in the
/// order of the text: splitting drops whitespace and nothing else.
pub proof fn lemma_tokens_hold_all_but_whitespace(s: Seq<char>)
    ensures
        tokens(s).flatten() == s.filter(|c: char| !is_space(c)),
    decreases s.len(),
{
    let keep = |c: char| !is_space(c);
    if s.len() == 0 {
        reveal(Seq::filter);
    } else if is_space(s[0]) {
        let head = Seq::<char>::empty().push(s[0]);
        assert(head + s.skip(1) =~= s);
        Seq::filter_distributes_over_add(head, s.skip(1), keep);
        Seq::<char>::empty().lemma_filter_push(s[0], keep);
        assert(Seq::<char>::empty().filter(keep) =~= Seq::<char>::empty()) by {
            reveal(Seq::filter);
        }
        lemma_tokens_hold_all_but_whitespace(s.skip(1));
        assert(Seq::<char>::empty() + s.skip(1).filter(keep) =~= s.skip(1).filter(keep));
    } else {
        lemma_word_len(s);
        let n = word_len(s) as int;
        let word = s.take(n);
        let rest = s.skip(n);
        assert(word + rest =~= s);
        Seq::filter_distributes_over_add(word, rest, keep);
        lemma_no_space_is_kept(word);
        lemma_tokens_hold_all_but_whitespace(rest);
        lemma_flatten_concat(seq![word], tokens(rest));
        seq![word].lemma_flatten_one_element();
    }
}

/// The tokens of `line`, from left to right.
pub fn tokenize(line: &str) -> (out: Vec<String>)
    ensures
        out.deep_view() == tokens(line@),
{
    let chars = chars_of(line);
    let ghost s = line@;
    let len: usize = chars.len();
    let mut out: Vec<String> = Vec::new();
    let mut start: usize = 0;
    let mut in_word: bool = false;
    let mut i: usize = 0;
    assert(s.skip(0) =~= s);
    assert(out.deep_view() + tokens(s) =~= tokens(s));
    while i < len
        invariant
            chars@ == s,
            s == line@,
            len == s.len(),
            i <= len,
            in_word ==> start < i && no_space(s.subrange(start as int, i as int)),
            tokens(s) == out.deep_view() + tokens(
                s.skip(
                    if in_word {
                        start as int
                    } else {
                        i as int
                    },
                ),
            ),
        decreases len - i,
    {
        let c: char = chars[i];
        if is_whitespace(c) {
            if in_word {
                let word = line.substring_char(start, i);
                proof {
                    lemma_token_ends(s, start as int, i as int);
                    assert(out.deep_view().push(word@) + tokens(s.skip(i as int)) =~= out.deep_view()
                        + (seq![word@] + tokens(s.skip(i as int))));
                }
                let ghost before = out.deep_view();
                out.push(word.to_owned());
                assert(out.deep_view() =~= before.push(word@));
                in_word = false;
            }
            assert(s.skip(i as int).skip(1) =~= s.skip(i + 1));
        } else {
            if !in_word {
                start = i;
                in_word = true;
            }
            assert forall|j: int| 0 <= j < s.subrange(start as int, i + 1).len() implies !is_space(
                #[trigger] s.subrange(start as int, i + 1)[j],
            ) by {
                if j < i - start {
                    assert(s.subrange(start as int, i + 1)[j] == s.subrange(
                        start as int,
                        i as int,
                    )[j]);
                }
            }
        }
        i += 1;
    }
    if in_word {
        let word = line.substring_char(start, len);
        proof {
            lemma_token_ends(s, start as int, len as int);
            assert(s.skip(len as int) =~= Seq::<char>::empty());
            assert(out.deep_view().push(word@) =~= out.deep_view() + (seq![word@] + tokens(
                s.skip(len as int),
            )));
        }
        let ghost before = out.deep_view();
        out.push(word.to_owned());
        assert(out.deep_view() =~= before.push(word@));
    } else {
        assert(s.skip(len as int) =~= Seq::<char>::empty());
        assert(out.deep_view() + tokens(s.skip(len as int)) =~= out.deep_view());
    }
    out
}

/// A run without whitespace from `start` to `end` that ends at the end of
/// `s` or before a whitespace character is the first token of what `s`
/// holds from `start` on.
proof fn lemma_token_ends(s: Seq<char>, start: int, end: int)
    requires
        0 <= start < end <= s.len(),
        no_space(s.subrange(start, end)),
        end < s.len() ==> is_space(s[end]),
    ensures
        tokens(s.skip(start)) == seq![s.subrange(start, end)] + tokens(s.skip(end)),
{
    let tail = s.skip(start);
    assert(tail.take(end - start) =~= s.subrange(start, end));
    assert(s.subrange(start, end)[0] == tail[0]);
    if end < s.len() {
        assert(tail[end - start] == s[end]);
    }
    lemma_word_len_is(tail, end - start);
    assert(tail.skip(end - start) =~= s.skip(end));
}

} // verus!
