//! Text helpers: what the standard library does to strings and characters,
//! stated over sequences of characters, and decimal rendering of integers.

use vstd::prelude::*;
use vstd::string::StrSliceExecFns;
use vstd::string::StringExecFns;

verus! {

/// Whether a character has the Unicode property `Alphabetic`.
pub uninterp spec fn alphabetic(c: char) -> bool;

/// `char::is_alphabetic` of the standard library. Its answer is the Unicode
/// property `Alphabetic` of the character, which the library names
/// `alphabetic` and does not define.
pub assume_specification[ char::is_alphabetic ](c: char) -> (answer: bool)
    ensures
        answer == alphabetic(c),
;

/// `String::push` of the standard library: the character is appended at the
/// end and nothing else changes.
pub assume_specification[ String::push ](text: &mut String, ch: char)
    ensures
        final(text)@ == old(text)@.push(ch),
;

/// Whether two texts hold the same characters in the same order.
pub fn same_text(left: &str, right: &str) -> (same: bool)
    ensures
        same == (left@ == right@),
{
    String::from_str(left) == String::from_str(right)
}

/// Whether a character has the Unicode property `White_Space`.
pub uninterp spec fn white_space(c: char) -> bool;

/// `char::is_whitespace` of the standard library. Its answer is the Unicode
/// property `White_Space` of the character, which the library names
/// `white_space` and does not define.
#[verifier::external_body]
pub(crate) fn is_white_space(c: char) -> (answer: bool)
    ensures
        answer == white_space(c),
{
    char::is_whitespace(c)
}

/// The first place at or behind `from` that holds no white space, or the
/// length of the text where only white space follows.
pub open spec fn first_kept(text: Seq<char>, from: int) -> int
    decreases text.len() - from,
{
    if 0 <= from < text.len() && white_space(text[from]) {
        first_kept(text, from + 1)
    } else {
        from
    }
}

/// The place behind the last character before `to` that is no white space,
/// and `floor` where only white space stands between `floor` and `to`.
pub open spec fn last_kept(text: Seq<char>, to: int, floor: int) -> int
    decreases to,
{
    if floor < to <= text.len() && 0 < to && white_space(text[to - 1]) {
        last_kept(text, to - 1, floor)
    } else {
        to
    }
}

/// A text without the white space at its start and at its end.
pub open spec fn trimmed(text: Seq<char>) -> Seq<char> {
    let start = first_kept(text, 0);
    text.subrange(start, last_kept(text, text.len() as int, start))
}

/// A text of its own without the white space at the start and at the end of
/// `text`.
pub fn trim_text(text: &str) -> (short: String)
    ensures
        short@ == trimmed(text@),
{
    let count: usize = text.unicode_len();
    let mut start: usize = 0;
    while start < count && is_white_space(text.get_char(start))
        invariant
            start <= count,
            count == text@.len(),
            first_kept(text@, 0) == first_kept(text@, start as int),
        decreases count - start,
    {
        start += 1;
    }
    let mut end: usize = count;
    while end > start && is_white_space(text.get_char(end - 1))
        invariant
            start <= end <= count,
            count == text@.len(),
            last_kept(text@, count as int, start as int) == last_kept(
                text@,
                end as int,
                start as int,
            ),
        decreases end,
    {
        end -= 1;
    }
    copy_text(text.substring_char(start, end))
}

/// The character at place `index`, counted in characters, or the null
/// character where the text is shorter.
pub fn char_or_null(data: &str, index: usize) -> (ch: char)
    ensures
        ch == crate::types::char_at(data@, index as int),
{
    let count: usize = data.unicode_len();
    if index < count {
        data.get_char(index)
    } else {
        '\0'
    }
}

/// The character that writes the digit `digit`, for `0 <= digit <= 9`.
pub open spec fn digit_char(digit: int) -> char {
    (digit + 48) as char
}

/// The decimal spelling of a natural number, without leading zeros.
pub open spec fn natural_text(n: nat) -> Seq<char>
    decreases n,
{
    if n < 10 {
        seq![digit_char(n as int)]
    } else {
        natural_text(n / 10).push(digit_char((n % 10) as int))
    }
}

/// The decimal spelling of an integer: a minus sign before a negative one.
pub open spec fn integer_text(i: int) -> Seq<char> {
    if i < 0 {
        seq!['-'] + natural_text((-i) as nat)
    } else {
        natural_text(i as nat)
    }
}

/// Appends the decimal spelling of `n`.
pub fn push_natural(text: &mut String, n: u64)
    ensures
        final(text)@ == old(text)@ + natural_text(n as nat),
    decreases n,
{
    if n >= 10 {
        push_natural(text, n / 10);
    }
    let digit: u8 = (n % 10) as u8;
    let ch: char = (digit + 48) as char;
    text.push(ch);
    proof {
        if n >= 10 {
            assert(final(text)@ =~= old(text)@ + natural_text(n as nat));
        } else {
            assert(final(text)@ =~= old(text)@ + natural_text(n as nat));
        }
    }
}

/// Appends the decimal spelling of `i`.
pub fn push_integer(text: &mut String, i: i64)
    ensures
        final(text)@ == old(text)@ + integer_text(i as int),
{
    if i < 0 {
        text.push('-');
        let magnitude: u64 = ((-(i + 1)) as u64) + 1;
        push_natural(text, magnitude);
        assert(final(text)@ =~= old(text)@ + integer_text(i as int));
    } else {
        push_natural(text, i as u64);
    }
}

/// Appends a text.
pub fn push_text(text: &mut String, more: &str)
    ensures
        final(text)@ == old(text)@ + more@,
{
    text.append(more);
}

/// A text of its own with the same characters.
pub fn copy_text(source: &str) -> (copy: String)
    ensures
        copy@ == source@,
{
    String::from_str(source)
}

/// Whether two lists of texts hold the same texts in the same order.
pub fn same_texts(left: &Vec<String>, right: &Vec<String>) -> (same: bool)
    ensures
        same == (left.deep_view() == right.deep_view()),
{
    if left.len() != right.len() {
        assert(left.deep_view().len() != right.deep_view().len());
        return false;
    }
    let mut i: usize = 0;
    while i < left.len()
        invariant
            i <= left.len(),
            left.len() == right.len(),
            forall|j: int| 0 <= j < i ==> left[j]@ == right[j]@,
        decreases left.len() - i,
    {
        if !same_text(left[i].as_str(), right[i].as_str()) {
            assert(left.deep_view()[i as int] != right.deep_view()[i as int]);
            return false;
        }
        i += 1;
    }
    assert(left.deep_view() =~= right.deep_view());
    true
}

/// `count` blanks.
pub open spec fn blanks(count: nat) -> Seq<char> {
    Seq::new(count, |i: int| ' ')
}

/// A text with blanks behind it up to a width; a text that is as wide or
/// wider stays as it is.
pub open spec fn padded(text: Seq<char>, width: nat) -> Seq<char> {
    if text.len() >= width {
        text
    } else {
        text + blanks((width - text.len()) as nat)
    }
}

/// A text with blanks before it up to a width; a text that is as wide or
/// wider stays as it is.
pub open spec fn right_aligned(text: Seq<char>, width: nat) -> Seq<char> {
    if text.len() >= width {
        text
    } else {
        blanks((width - text.len()) as nat) + text
    }
}

/// Appends `count` blanks.
pub fn push_blanks(text: &mut String, count: usize)
    ensures
        final(text)@ == old(text)@ + blanks(count as nat),
{
    let mut i: usize = 0;
    assert(text@ =~= old(text)@ + blanks(0));
    while i < count
        invariant
            i <= count,
            text@ == old(text)@ + blanks(i as nat),
        decreases count - i,
    {
        text.push(' ');
        i += 1;
        assert(text@ =~= old(text)@ + blanks(i as nat));
    }
}

/// Appends a text with blanks behind it up to a width.
pub fn push_padded(text: &mut String, more: &str, width: usize)
    ensures
        final(text)@ == old(text)@ + padded(more@, width as nat),
{
    let count: usize = more.unicode_len();
    text.append(more);
    if count < width {
        push_blanks(text, width - count);
        assert(final(text)@ =~= old(text)@ + padded(more@, width as nat));
    }
}

/// Appends a text with blanks before it up to a width.
pub fn push_right_aligned(text: &mut String, more: &str, width: usize)
    ensures
        final(text)@ == old(text)@ + right_aligned(more@, width as nat),
{
    let count: usize = more.unicode_len();
    if count < width {
        push_blanks(text, width - count);
    }
    text.append(more);
    assert(final(text)@ =~= old(text)@ + right_aligned(more@, width as nat));
}

} // verus!
