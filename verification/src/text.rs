//! Character-level building blocks: blanking, newline counting, joining.

use vstd::prelude::*;
use vstd::utf8::encode_utf8;

verus! {

/// The whitespace characters that blanking keeps as they are.
pub open spec fn is_kept_whitespace(c: char) -> bool {
    c == ' ' || c == '\n' || c == '\t' || c == '\r' || c == '\x0C' || c == '\x0B'
}

/// What a single character becomes when it is blanked.
pub open spec fn blank_char(c: char) -> char {
    if is_kept_whitespace(c) {
        c
    } else {
        ' '
    }
}

/// `text` with every character blanked.
pub open spec fn blanked(text: Seq<char>) -> Seq<char> {
    Seq::new(text.len(), |i: int| blank_char(text[i]))
}

/// Number of line feeds in `text`.
pub open spec fn newline_count(text: Seq<char>) -> nat
    decreases text.len(),
{
    if text.len() == 0 {
        0
    } else {
        newline_count(text.drop_last()) + if text.last() == '\n' {
            1nat
        } else {
            0nat
        }
    }
}

/// `count` copies of the character `c`.
pub open spec fn repeated(c: char, count: nat) -> Seq<char> {
    Seq::new(count, |i: int| c)
}

/// The given parts with `separator` between each two of them.
pub open spec fn joined(parts: Seq<Seq<char>>, separator: Seq<char>) -> Seq<char>
    decreases parts.len(),
{
    if parts.len() == 0 {
        Seq::empty()
    } else if parts.len() == 1 {
        parts[0]
    } else {
        joined(parts.drop_last(), separator) + separator + parts.last()
    }
}

/// The views of the given strings.
pub open spec fn views(strings: Seq<String>) -> Seq<Seq<char>> {
    Seq::new(strings.len(), |i: int| strings[i]@)
}

/// `String::push_str` appends the given text at the end of the string.
pub assume_specification[ String::push_str ](buf: &mut String, text: &str)
    ensures
        final(buf)@ == old(buf)@ + text@,
;

/// `String::push` appends the given character at the end of the string.
pub assume_specification[ String::push ](buf: &mut String, c: char)
    ensures
        final(buf)@ == old(buf)@.push(c),
;

/// `==` on `str`: two texts are equal if they hold the same characters.
pub assume_specification[ <str as PartialEq>::eq ](left: &str, right: &str) -> (equal: bool)
    ensures
        equal == (left@ == right@),
;

/// A text never has more characters than its UTF-8 encoding has bytes.
pub proof fn lemma_char_count_le_byte_count(text: Seq<char>)
    ensures
        text.len() <= encode_utf8(text).len(),
    decreases text.len(),
{
    if text.len() > 0 {
        lemma_char_count_le_byte_count(text.drop_first());
    }
}

/// Appends `text` to `buf` with every character that is not whitespace
/// replaced by a space.
pub fn blank(buf: &mut String, text: &str)
    ensures
        final(buf)@ == old(buf)@ + blanked(text@),
        final(buf)@.len() == old(buf)@.len() + text@.len(),
        forall|i: int|
            0 <= i < text@.len() && is_kept_whitespace(text@[i]) ==> #[trigger] final(buf)@[old(
                buf,
            )@.len() + i] == text@[i],
        forall|i: int|
            0 <= i < text@.len() && !is_kept_whitespace(text@[i]) ==> #[trigger] final(buf)@[old(
                buf,
            )@.len() + i] == ' ',
{
    for c in it: text.chars()
        invariant
            it.seq() == text@,
            buf@ == old(buf)@ + blanked(text@.take(it.index() as int)),
    {
        let out = if c == ' ' || c == '\n' || c == '\t' || c == '\r' || c == '\x0C' || c
            == '\x0B' {
            c
        } else {
            ' '
        };
        buf.push(out);
    }
}

/// Counts the line feeds in `text`.
pub fn newlines(text: &str) -> (count: usize)
    ensures
        count == newline_count(text@),
{
    let bytes = text.as_bytes().len();
    proof {
        lemma_char_count_le_byte_count(text@);
    }
    let mut count: usize = 0;
    for c in it: text.chars()
        invariant
            it.seq() == text@,
            text@.len() <= bytes,
            count == newline_count(text@.take(it.index() as int)),
            count <= it.index() <= text@.len(),
    {
        proof {
            let next = text@.take(it.index() + 1);
            assert(next.drop_last() == text@.take(it.index() as int));
            assert(next.last() == c);
        }
        if c == '\n' {
            count = count + 1;
        }
    }
    proof {
        assert(text@.take(text@.len() as int) == text@);
    }
    count
}

/// Appends `count` copies of `c` to `buf`.
pub fn push_repeated(buf: &mut String, c: char, count: usize)
    ensures
        final(buf)@ == old(buf)@ + repeated(c, count as nat),
{
    let mut done: usize = 0;
    while done < count
        invariant
            done <= count,
            buf@ == old(buf)@ + repeated(c, done as nat),
        decreases count - done,
    {
        buf.push(c);
        done = done + 1;
    }
}

/// Joins `parts` with `separator` between each two of them.
pub fn join(parts: &Vec<String>, separator: &str) -> (text: String)
    ensures
        text@ == joined(views(parts@), separator@),
{
    let mut text = String::new();
    let mut index: usize = 0;
    while index < parts.len()
        invariant
            index <= parts.len(),
            text@ == joined(views(parts@).take(index as int), separator@),
        decreases parts.len() - index,
    {
        proof {
            let before = views(parts@).take(index as int);
            let after = views(parts@).take(index + 1);
            assert(after.drop_last() == before);
            assert(after.last() == parts@[index as int]@);
        }
        if index > 0 {
            text.push_str(separator);
        }
        text.push_str(parts[index].as_str());
        index = index + 1;
    }
    proof {
        assert(views(parts@).take(parts.len() as int) == views(parts@));
    }
    text
}

} // verus!
