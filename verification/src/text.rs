//! Texts as sequences of characters.

use vstd::prelude::*;

verus! {

/// Calls `String::push`, which appends one character to the text.
#[verifier::external_body]
pub(crate) fn push_char(text: &mut String, c: char)
    ensures
        final(text)@ == old(text)@.push(c),
{
    text.push(c)
}

/// The characters of a text, in order.
pub fn characters(text: &str) -> (r: Vec<char>)
    ensures
        r@ == text@,
{
    let mut r: Vec<char> = Vec::new();
    for c in it: text.chars()
        invariant
            r@ == it.seq().take(it.index() as int),
            it.seq() == text@,
    {
        r.push(c);
    }
    r
}

/// A decimal digit, `0` to `9`.
pub open spec fn is_digit(c: char) -> bool {
    '0' <= c && c <= '9'
}

/// Tells decimal digits from other characters.
pub fn check_digit(c: char) -> (b: bool)
    ensures
        b == is_digit(c),
{
    '0' <= c && c <= '9'
}

/// Where the run of digits that starts at `pos` ends.
pub open spec fn digits_end(text: Seq<char>, pos: int) -> int
    decreases text.len() - pos,
{
    if 0 <= pos < text.len() && is_digit(text[pos]) {
        digits_end(text, pos + 1)
    } else {
        pos
    }
}

/// Finds where the run of digits that starts at `pos` ends.
pub fn skip_digits(text: &Vec<char>, pos: usize) -> (end: usize)
    requires
        pos <= text.len(),
    ensures
        end == digits_end(text@, pos as int),
        pos <= end <= text.len(),
{
    let mut end = pos;
    while end < text.len() && check_digit(text[end])
        invariant
            pos <= end <= text.len(),
            digits_end(text@, end as int) == digits_end(text@, pos as int),
        decreases text.len() - end,
    {
        end = end + 1;
    }
    end
}

} // verus!
