//! Small operations on text that the rest of the library shares.

use vstd::prelude::*;

verus! {

/// The characters of `text`, one by one.
pub fn chars_of(text: &str) -> (chars: Vec<char>)
    ensures
        chars@ == text@,
{
    let mut chars: Vec<char> = Vec::new();
    for c in it: text.chars()
        invariant
            it.seq() == text@,
            chars@ == it.seq().take(it.index() as int),
    {
        chars.push(c);
        assert(it.seq().take(it.index() + 1) == it.seq().take(it.index() as int).push(c));
    }
    assert(text@.take(text@.len() as int) == text@);
    chars
}

/// Whether two texts are the same, character for character.
pub fn same_text(a: &str, b: &str) -> (same: bool)
    ensures
        same == (a@ == b@),
{
    let left: String = a.to_owned();
    let right: String = b.to_owned();
    left == right
}

/// Whether a character is white space in Unicode's sense, as
/// `char::is_whitespace` tells.
pub uninterp spec fn is_white_space(c: char) -> bool;

/// A text without the white space at its end.
pub open spec fn trimmed_end(text: Seq<char>) -> Seq<char>
    decreases text.len(),
{
    if text.len() > 0 && is_white_space(text.last()) {
        trimmed_end(text.drop_last())
    } else {
        text
    }
}

/// Calls `str::trim_end`: the text up to its last character that is not
/// white space, and all of it where it does not end in white space.
#[verifier::external_body]
pub(crate) fn trim_end(text: &str) -> (kept: &str)
    ensures
        kept@ == trimmed_end(text@),
        kept@.len() > 0 ==> !is_white_space(kept@.last()),
{
    text.trim_end()
}

/// A line that holds nothing but white space.
pub open spec fn is_blank(line: Seq<char>) -> bool {
    trimmed_end(line).len() == 0
}

/// What a line of a ledger was read as.
#[derive(Debug)]
pub enum Reading<T> {
    /// The line is blank: it is passed over.
    Blank,
    /// The line holds no record: it is passed over with a warning.
    Malformed,
    /// The line holds this record.
    Record(T),
}

/// Whether a line holds nothing but white space.
pub fn blank_line(line: &str) -> (blank: bool)
    ensures
        blank == is_blank(line@),
{
    trim_end(line).is_empty()
}

} // verus!
