//! Building and reading strings one character at a time.

use vstd::prelude::*;

verus! {

/// `String::push` appends the given character to the end of the string and
/// leaves the characters before it as they were.
pub assume_specification[ String::push ](s: &mut String, c: char)
    ensures
        final(s)@ == old(s)@.push(c),
;

/// The characters that ASCII holds.
pub open spec fn is_ascii_char(c: char) -> bool {
    c as u32 <= 0x7f
}

/// A character is a Unicode scalar value: a code point that is no
/// surrogate. The verifier knows this of a `char` that stands by itself;
/// proofs call the lemma for one that they take out of a sequence or an
/// `Option`.
pub proof fn lemma_char_is_scalar(c: char)
    ensures
        '\0' <= c <= '\u{D7FF}' || '\u{E000}' <= c <= '\u{10FFFF}',
{
}

/// The characters of `s`, in order.
pub fn chars_of(s: &str) -> (chars: Vec<char>)
    ensures
        chars@ == s@,
{
    let mut chars: Vec<char> = Vec::new();
    for c in it: s.chars()
        invariant
            chars@ == it.seq().take(it.index()),
            it.seq() == s@,
    {
        chars.push(c);
    }
    chars
}

} // verus!
