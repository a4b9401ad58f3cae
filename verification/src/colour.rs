//! The colour that a word's first three characters give it.

use vstd::prelude::*;

verus! {

/// A colour as red, green and blue.
#[derive(Clone, Copy, Debug, PartialEq, Eq, Structural)]
pub struct Rgb {
    pub r: u8,
    pub g: u8,
    pub b: u8,
}

/// The channel value that the character `c` gives: twice its code where the
/// code is at most 127, and 255 for every other character.
pub open spec fn channel_of(c: char) -> u8 {
    if c as u32 <= 127 {
        (2 * (c as u32)) as u8
    } else {
        255
    }
}

/// The character of `word` at `pos`, or the digit `0` where `word` has none
/// there.
pub open spec fn char_or_zero(word: Seq<char>, pos: int) -> char {
    if 0 <= pos < word.len() {
        word[pos]
    } else {
        '0'
    }
}

/// The channel value that `word` gives at `pos`.
pub open spec fn colour_at(word: Seq<char>, pos: int) -> u8 {
    channel_of(char_or_zero(word, pos))
}

/// The colour of `word`: its first three characters give red, green and
/// blue.
pub open spec fn rainbow_of(word: Seq<char>) -> Rgb {
    Rgb { r: colour_at(word, 0), g: colour_at(word, 1), b: colour_at(word, 2) }
}

/// The channel value that `word` gives at `pos`.
pub fn char_to_colour(word: &str, pos: usize) -> (v: u8)
    ensures
        v == colour_at(word@, pos as int),
{
    let c: char = if pos < word.unicode_len() {
        word.get_char(pos)
    } else {
        '0'
    };
    let code: u32 = c as u32;
    if code <= 127 {
        (code * 2) as u8
    } else {
        255
    }
}

/// The colour of `word`.
pub fn rainbow(word: &str) -> (colour: Rgb)
    ensures
        colour == rainbow_of(word@),
{
    Rgb { r: char_to_colour(word, 0), g: char_to_colour(word, 1), b: char_to_colour(word, 2) }
}

/// A word of three or more characters whose first three codes are all at
/// most 127 has exactly twice those codes as its channels.
pub proof fn lemma_colour_doubles(word: Seq<char>)
    requires
        word.len() >= 3,
        word[0] as u32 <= 127,
        word[1] as u32 <= 127,
        word[2] as u32 <= 127,
    ensures
        rainbow_of(word).r == 2 * (word[0] as u32),
        rainbow_of(word).g == 2 * (word[1] as u32),
        rainbow_of(word).b == 2 * (word[2] as u32),
{
}

/// A character whose code is above 127 gives the channel value 255.
pub proof fn lemma_colour_clamps(word: Seq<char>, pos: int)
    requires
        0 <= pos < word.len(),
        word[pos] as u32 > 127,
    ensures
        colour_at(word, pos) == 255,
{
}

/// A position that `word` does not reach gives the channel value of the
/// digit `0`, which is 96.
pub proof fn lemma_colour_missing(word: Seq<char>, pos: int)
    requires
        pos >= word.len(),
    ensures
        colour_at(word, pos) == 96,
{
}

/// Words that agree in their first three characters have the same colour.
pub proof fn lemma_colour_of_prefix(word: Seq<char>, other: Seq<char>)
    requires
        word.len() >= 3,
        other.len() >= 3,
        word.take(3) == other.take(3),
    ensures
        rainbow_of(word) == rainbow_of(other),
{
    let head = word.take(3);
    assert(word[0] == head[0] && word[1] == head[1] && word[2] == head[2]);
    let other_head = other.take(3);
    assert(other[0] == other_head[0] && other[1] == other_head[1] && other[2] == other_head[2]);
}

} // verus!
