//! One line of input: its segments, each a token with its category, and the
//! line of output that the painted segments make.

use crate::classify::{
    classify_chars, classify_token, lemma_classify_is_not_timestamp, pattern_chars, pattern_view,
    Category, Context,
};
use crate::paint::{paint, paints, style_for, style_of, Style};
use crate::text::{chars_of, is_space};
use crate::token::{
    is_word, lemma_tokens_are_words, lemma_tokens_concat, lemma_tokens_of_blank,
    lemma_tokens_of_word, tokenize, tokens,
};
use vstd::prelude::*;

verus! {

/// A token of a line with its category.
#[derive(Debug, PartialEq, Eq)]
pub struct Segment {
    pub text: String,
    pub category: Category,
}

/// The mathematical value of a [`Segment`].
pub struct SegmentView {
    pub text: Seq<char>,
    pub category: Category,
}

impl View for Segment {
    type V = SegmentView;

    open spec fn view(&self) -> SegmentView {
        SegmentView { text: self.text@, category: self.category }
    }
}

impl DeepView for Segment {
    type V = SegmentView;

    open spec fn deep_view(&self) -> SegmentView {
        self@
    }
}

impl SegmentView {
    /// The style in which the segment is painted.
    pub open spec fn style(self) -> Style {
        style_of(self.category, self.text)
    }
}

impl Segment {
    /// The style in which the segment is painted.
    pub fn style(&self) -> (style: Style)
        ensures
            style == self@.style(),
    {
        style_for(self.category, self.text.as_str())
    }
}

/// What stands for the first token where a line has none.
pub open spec fn placeholder() -> Seq<char> {
    "¿"@
}

/// The words that a line shows: its tokens, or the placeholder alone where
/// it has none.
pub open spec fn words_of(line: Seq<char>) -> Seq<Seq<char>> {
    if tokens(line).len() == 0 {
        seq![placeholder()]
    } else {
        tokens(line)
    }
}

/// The category of the word at `index`: the first word is the timestamp,
/// whatever it holds, and every other word is classified by the rules.
pub open spec fn category_at(words: Seq<Seq<char>>, index: int, pattern: Option<Seq<char>>)
    -> Category {
    if index == 0 {
        Category::Timestamp
    } else {
        classify_token(words[index], pattern)
    }
}

/// The segments of `line`: one for each word, in the order of the line.
pub open spec fn segments_of(line: Seq<char>, pattern: Option<Seq<char>>) -> Seq<SegmentView> {
    let words = words_of(line);
    Seq::new(
        words.len(),
        |i: int| SegmentView { text: words[i], category: category_at(words, i, pattern) },
    )
}

/// The pieces joined by single spaces.
pub open spec fn spaced(pieces: Seq<Seq<char>>) -> Seq<char>
    decreases pieces.len(),
{
    if pieces.len() == 0 {
        Seq::empty()
    } else if pieces.len() == 1 {
        pieces[0]
    } else {
        spaced(pieces.drop_last()) + seq![' '] + pieces.last()
    }
}

/// The line of output that the pieces make: the pieces joined by single
/// spaces, then a newline.
pub open spec fn line_of(pieces: Seq<Seq<char>>) -> Seq<char> {
    spaced(pieces) + seq!['\n']
}

/// The segments of `line`, from left to right.
pub fn classify_line(line: &str, context: &Context) -> (segments: Vec<Segment>)
    ensures
        segments.deep_view() == segments_of(line@, context.pattern()),
{
    let pattern = pattern_chars(&context.highlight);
    let mut words = tokenize(line);
    if words.len() == 0 {
        proof {
            reveal_strlit("¿");
        }
        let ghost before = words.deep_view();
        words.push("¿".to_owned());
        assert(words.deep_view() =~= before.push("¿"@));
        assert(words.deep_view() =~= words_of(line@));
    }
    let mut segments: Vec<Segment> = Vec::new();
    let mut i: usize = 0;
    while i < words.len()
        invariant
            i <= words.len(),
            words.deep_view() == words_of(line@),
            pattern_view(pattern) == context.pattern(),
            segments.len() == i,
            forall|k: int|
                0 <= k < i ==> (#[trigger] segments[k])@ == segments_of(line@, context.pattern())[k],
        decreases words.len() - i,
    {
        let word = &words[i];
        assert(word@ == words.deep_view()[i as int]);
        let category = if i == 0 {
            Category::Timestamp
        } else {
            let chars = chars_of(word.as_str());
            classify_chars(&chars, &pattern)
        };
        segments.push(Segment { text: word.clone(), category });
        i += 1;
    }
    assert(segments.deep_view() =~= segments_of(line@, context.pattern()));
    segments
}

/// The line of output that `pieces` make: the pieces joined by single
/// spaces, then a newline.
pub fn join_line(pieces: &Vec<String>) -> (line: String)
    ensures
        line@ == line_of(pieces.deep_view()),
{
    proof {
        reveal_strlit(" ");
        reveal_strlit("\n");
    }
    let mut line = String::new();
    let mut i: usize = 0;
    while i < pieces.len()
        invariant
            i <= pieces.len(),
            " "@ == seq![' '],
            line@ == spaced(pieces.deep_view().take(i as int)),
        decreases pieces.len() - i,
    {
        let ghost before = pieces.deep_view().take(i as int);
        let ghost after = pieces.deep_view().take(i + 1);
        assert(after.drop_last() =~= before);
        assert(after.last() == pieces[i as int]@);
        if i > 0 {
            line.append(" ");
        }
        line.append(pieces[i].as_str());
        assert(line@ =~= spaced(after));
        i += 1;
    }
    assert(pieces.deep_view().take(pieces.len() as int) =~= pieces.deep_view());
    line.append("\n");
    assert("\n"@ =~= seq!['\n']);
    line
}

/// Whether `piece` is something that `painter` gives for `text` and
/// `style`.
pub open spec fn painted_by<F: Fn(&str, Style) -> String>(
    painter: F,
    text: Seq<char>,
    style: Style,
    piece: Seq<char>,
) -> bool {
    exists|t: &str, p: String| t@ == text && p@ == piece && call_ensures(painter, (t, style), p)
}

/// Whether `pieces` are the segments of `line` as `painter` paints them: one
/// piece for each segment, in the order of the line, each being what the
/// painter gives for the text of its segment and the style of its segment.
pub open spec fn painted_with<F: Fn(&str, Style) -> String>(
    painter: F,
    pieces: Seq<Seq<char>>,
    line: Seq<char>,
    pattern: Option<Seq<char>>,
) -> bool {
    let segments = segments_of(line, pattern);
    &&& pieces.len() == segments.len()
    &&& forall|i: int|
        0 <= i < pieces.len() ==> painted_by(
            painter,
            segments[i].text,
            segments[i].style(),
            #[trigger] pieces[i],
        )
}

/// Whether `pieces` can be the segments of `line` as [`paint`] paints them:
/// one piece for each segment, in the order of the line, each being the
/// text of its segment painted in the style of its segment.
pub open spec fn painted_from(
    pieces: Seq<Seq<char>>,
    line: Seq<char>,
    pattern: Option<Seq<char>>,
) -> bool {
    let segments = segments_of(line, pattern);
    &&& pieces.len() == segments.len()
    &&& forall|i: int|
        0 <= i < pieces.len() ==> paints(segments[i].style(), segments[i].text, #[trigger] pieces[i])
}

/// The line of output for `line` with `painter` as the painter: each segment
/// is handed to the painter with its style, once and in the order of the
/// line, and what the painter gives is joined by single spaces and ended by
/// a newline.
pub fn format_line_with<F: Fn(&str, Style) -> String>(
    line: &str,
    context: &Context,
    painter: F,
) -> (out: String)
    requires
        forall|text: &str, style: Style| call_requires(painter, (text, style)),
    ensures
        exists|pieces: Seq<Seq<char>>|
            painted_with(painter, pieces, line@, context.pattern()) && out@ == #[trigger] line_of(
                pieces,
            ),
{
    let segments = classify_line(line, context);
    let mut pieces: Vec<String> = Vec::new();
    let mut i: usize = 0;
    while i < segments.len()
        invariant
            i <= segments.len(),
            pieces.len() == i,
            forall|text: &str, style: Style| call_requires(painter, (text, style)),
            forall|k: int|
                0 <= k < i ==> painted_by(
                    painter,
                    segments[k].text@,
                    segments[k]@.style(),
                    #[trigger] pieces[k]@,
                ),
        decreases segments.len() - i,
    {
        let segment = &segments[i];
        let piece = painter(segment.text.as_str(), segment.style());
        pieces.push(piece);
        i += 1;
    }
    proof {
        let shown = pieces.deep_view();
        let wanted = segments_of(line@, context.pattern());
        assert forall|k: int| 0 <= k < shown.len() implies painted_by(
            painter,
            wanted[k].text,
            wanted[k].style(),
            #[trigger] shown[k],
        ) by {
            assert(segments.deep_view()[k] == segments[k]@);
            assert(shown[k] == pieces[k]@);
        }
        assert(painted_with(painter, shown, line@, context.pattern()));
    }
    join_line(&pieces)
}

/// The line of output for `line`: each segment painted for the terminal in
/// its style, the painted segments joined by single spaces, then a newline.
///
/// Whether colours are on depends on the terminal and the environment, so
/// the output is one of several; each of them is made of one piece for each
/// segment, which is the text of the segment painted in its style.
pub fn format_line(line: &str, context: &Context) -> (out: String)
    ensures
        exists|pieces: Seq<Seq<char>>|
            painted_from(pieces, line@, context.pattern()) && out@ == #[trigger] line_of(pieces),
{
    let out = format_line_with(line, context, paint);
    proof {
        let pieces = choose|pieces: Seq<Seq<char>>|
            painted_with(paint, pieces, line@, context.pattern()) && out@ == #[trigger] line_of(
                pieces,
            );
        let segments = segments_of(line@, context.pattern());
        assert forall|i: int| 0 <= i < pieces.len() implies paints(
            segments[i].style(),
            segments[i].text,
            #[trigger] pieces[i],
        ) by {
            assert(painted_by(paint, segments[i].text, segments[i].style(), pieces[i]));
        }
        assert(painted_from(pieces, line@, context.pattern()));
    }
    out
}

/// A line with a token has one segment for each token, with the token as
/// its text, in the order of the line.
pub proof fn lemma_segments_follow_tokens(line: Seq<char>, pattern: Option<Seq<char>>)
    requires
        tokens(line).len() > 0,
    ensures
        segments_of(line, pattern).len() == tokens(line).len(),
        forall|i: int|
            0 <= i < tokens(line).len() ==> (#[trigger] segments_of(line, pattern)[i]).text
                == tokens(line)[i],
{
}

/// A line without a token has one segment: the placeholder, shown as the
/// timestamp.
pub proof fn lemma_segments_of_blank(line: Seq<char>, pattern: Option<Seq<char>>)
    requires
        tokens(line).len() == 0,
    ensures
        segments_of(line, pattern) == seq![
            SegmentView { text: placeholder(), category: Category::Timestamp },
        ],
{
    assert(segments_of(line, pattern) =~= seq![
        SegmentView { text: placeholder(), category: Category::Timestamp },
    ]);
}

/// The first segment of every line is the timestamp, in the style of the
/// timestamp, whatever its text holds.
pub proof fn lemma_first_is_timestamp(line: Seq<char>, pattern: Option<Seq<char>>)
    ensures
        segments_of(line, pattern).len() > 0,
        segments_of(line, pattern)[0].category == Category::Timestamp,
        segments_of(line, pattern)[0].style() == Style::Blue,
{
}

/// Every segment after the first has the category that the rules give its
/// text, and none of them is a timestamp.
pub proof fn lemma_rest_is_classified(line: Seq<char>, pattern: Option<Seq<char>>, i: int)
    requires
        0 < i < segments_of(line, pattern).len(),
    ensures
        segments_of(line, pattern)[i].category == classify_token(tokens(line)[i], pattern),
        segments_of(line, pattern)[i].category != Category::Timestamp,
{
    lemma_classify_is_not_timestamp(tokens(line)[i], pattern);
}

/// Words that are joined by single spaces are told apart again: the tokens
/// of the joined text, with or without the closing newline, are the words.
pub proof fn lemma_tokens_of_joined(words: Seq<Seq<char>>)
    requires
        forall|i: int| 0 <= i < words.len() ==> is_word(#[trigger] words[i]),
    ensures
        tokens(spaced(words)) == words,
        tokens(line_of(words)) == words,
    decreases words.len(),
{
    let newline = seq!['\n'];
    assert(is_space(newline[0]));
    lemma_tokens_of_blank(newline);
    if words.len() == 0 {
        assert(tokens(spaced(words)) =~= words);
    } else if words.len() == 1 {
        lemma_tokens_of_word(words[0]);
        assert(seq![words[0]] =~= words);
    } else {
        let front = words.drop_last();
        let last = words.last();
        let space = seq![' '];
        lemma_tokens_of_joined(front);
        lemma_tokens_of_word(last);
        assert(is_space(space[0]));
        lemma_tokens_of_blank(space);
        lemma_tokens_concat(space, last);
        lemma_tokens_concat(spaced(front), space + last);
        assert(spaced(front) + (space + last) =~= spaced(words));
        assert(front + (Seq::<Seq<char>>::empty() + seq![last]) =~= words);
    }
    lemma_tokens_concat(spaced(words), newline);
    assert(words + Seq::<Seq<char>>::empty() =~= words);
}

/// Writing the tokens of a line out again, joined by single spaces, keeps
/// them: none is lost, none is added, and their order stays.
pub proof fn lemma_joined_tokens_are_kept(line: Seq<char>)
    ensures
        tokens(line_of(tokens(line))) == tokens(line),
{
    assert forall|i: int| 0 <= i < tokens(line).len() implies is_word(#[trigger] tokens(line)[i]) by {
        lemma_tokens_are_words(line, i);
    }
    lemma_tokens_of_joined(tokens(line));
}

} // verus!
