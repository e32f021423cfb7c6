//! The escape grammar: an introducer, an optional `-`, an optional run of
//! decimal digits and one specifier character.

use vstd::prelude::*;
use crate::cursor::Cursor;
use crate::error::Error;

verus! {

/// One parsed escape.
#[derive(Debug, Clone, Copy, PartialEq, Eq)]
pub struct Params {
    /// The introducer that opened the escape.
    pub symbol: char,
    /// The character that closed it.
    pub specifier: char,
    /// The number written between the two, if any digit was written.
    pub width: Option<u32>,
    /// Whether a `-` followed the introducer.
    pub reverse: bool,
}

/// The characters that open an escape.
pub open spec fn is_symbol(c: char) -> bool {
    c == '%' || c == '@'
}

/// The ASCII decimal digits.
pub open spec fn is_digit(c: char) -> bool {
    '0' <= c && c <= '9'
}

/// Whether an escape opens at index `pos` of `t`.
pub open spec fn opens_escape(t: Seq<char>, pos: int) -> bool {
    0 <= pos < t.len() && is_symbol(t[pos])
}

/// Whether the escape that opens at `pos` carries the `-` flag.
pub open spec fn has_flag(t: Seq<char>, pos: int) -> bool {
    pos + 1 < t.len() && t[pos + 1] == '-'
}

/// The index of the first width digit of the escape that opens at `pos`,
/// or of what stands in its place.
pub open spec fn width_start(t: Seq<char>, pos: int) -> int {
    if has_flag(t, pos) {
        pos + 2
    } else {
        pos + 1
    }
}

/// The index of the first character at or after `from` that is no digit;
/// `t.len()` if only digits follow.
pub open spec fn digits_end(t: Seq<char>, from: int) -> int
    decreases t.len() - from,
{
    if 0 <= from < t.len() && is_digit(t[from]) {
        digits_end(t, from + 1)
    } else {
        from
    }
}

/// The decimal number written in `t[from..to]`, as 32-bit unsigned
/// arithmetic accumulates it: each step multiplies by ten, adds the digit
/// and keeps the low 32 bits.
pub open spec fn width_value(t: Seq<char>, from: int, to: int) -> int
    decreases to - from,
{
    if to <= from {
        0
    } else {
        (width_value(t, from, to - 1) * 10 + (t[to - 1] as int - '0' as int)) % 0x1_0000_0000
    }
}

/// The index of the specifier of the escape that opens at `pos`. It may be
/// `t.len()`: then the template ends inside the escape.
pub open spec fn specifier_index(t: Seq<char>, pos: int) -> int {
    digits_end(t, width_start(t, pos))
}

/// Whether the template ends before the escape that opens at `pos` has its
/// specifier.
pub open spec fn is_truncated(t: Seq<char>, pos: int) -> bool {
    specifier_index(t, pos) >= t.len()
}

/// The width of the escape that opens at `pos`: absent when no digit is
/// written, which differs from a written zero.
pub open spec fn width_at(t: Seq<char>, pos: int) -> Option<u32> {
    if specifier_index(t, pos) > width_start(t, pos) {
        Some(width_value(t, width_start(t, pos), specifier_index(t, pos)) as u32)
    } else {
        None
    }
}

/// The escape that opens at `pos`, given that it is complete.
pub open spec fn params_at(t: Seq<char>, pos: int) -> Params {
    Params {
        symbol: t[pos],
        specifier: t[specifier_index(t, pos)],
        width: width_at(t, pos),
        reverse: has_flag(t, pos),
    }
}

/// What scanning at `pos` yields: nothing where no escape opens, the escape
/// where one is complete, and the error where the template ends inside it.
pub open spec fn scan(t: Seq<char>, pos: int) -> Result<Option<Params>, Error> {
    if !opens_escape(t, pos) {
        Ok(None)
    } else if is_truncated(t, pos) {
        Err(Error::TrailingSymbol(t[pos]))
    } else {
        Ok(Some(params_at(t, pos)))
    }
}

/// Where the cursor stands after scanning at `pos`: unmoved where no escape
/// opens, behind the specifier of a complete escape, and at the end of the
/// template where it ends inside the escape.
pub open spec fn scan_end(t: Seq<char>, pos: int) -> int {
    if !opens_escape(t, pos) {
        pos
    } else if is_truncated(t, pos) {
        t.len() as int
    } else {
        specifier_index(t, pos) + 1
    }
}

/// The run of digits ends at or after its start and within the template,
/// and holds digits only.
pub proof fn lemma_digits_end(t: Seq<char>, from: int)
    requires
        0 <= from <= t.len(),
    ensures
        from <= digits_end(t, from) <= t.len(),
        forall|i: int| from <= i < digits_end(t, from) ==> is_digit(#[trigger] t[i]),
        digits_end(t, from) < t.len() ==> !is_digit(t[digits_end(t, from)]),
    decreases t.len() - from,
{
    if from < t.len() && is_digit(t[from]) {
        lemma_digits_end(t, from + 1);
    }
}

/// From wherever within a run of digits one starts, the run ends at the
/// same index.
proof fn lemma_digits_end_from_inside(t: Seq<char>, from: int, at: int)
    requires
        0 <= from <= at <= t.len(),
        forall|i: int| from <= i < at ==> is_digit(#[trigger] t[i]),
    ensures
        digits_end(t, from) == digits_end(t, at),
    decreases at - from,
{
    if from < at {
        lemma_digits_end_from_inside(t, from + 1, at);
    }
}

/// An introducer that only the flag and digits follow, or nothing at all,
/// leaves its escape without a specifier: scanning there fails with the
/// introducer, and the rest of the template is consumed.
pub proof fn lemma_truncated_escape(t: Seq<char>, pos: int)
    requires
        opens_escape(t, pos),
        forall|i: int| width_start(t, pos) <= i < t.len() ==> is_digit(#[trigger] t[i]),
    ensures
        scan(t, pos) == Err::<Option<Params>, Error>(Error::TrailingSymbol(t[pos])),
        scan_end(t, pos) == t.len(),
{
    lemma_digits_end(t, width_start(t, pos));
}

impl Params {
    /// Scans one escape at the cursor. Where the next character opens no
    /// escape the cursor is left alone and `None` is returned. Otherwise
    /// the introducer, the flag, the digits and the specifier are consumed;
    /// a template that ends before the specifier gives `TrailingSymbol`
    /// with the introducer, and the cursor is then at the end.
    pub fn parse_from(chars: &mut Cursor) -> (parsed: Result<Option<Params>, Error>)
        ensures
            final(chars).text() == old(chars).text(),
            parsed == scan(old(chars).text(), old(chars).position()),
            final(chars).position() == scan_end(old(chars).text(), old(chars).position()),
    {
        let ghost t = chars.text();
        let ghost pos = chars.position();
        let symbol = match chars.peek() {
            Some(c) => {
                if c == '%' || c == '@' {
                    c
                } else {
                    return Ok(None);
                }
            },
            None => {
                return Ok(None);
            },
        };
        chars.next();

        let mut width: Option<u32> = None;
        let mut reverse = false;

        if let Some(c) = chars.peek() {
            if c == '-' {
                chars.next();
                reverse = true;
            }
        }
        assert(reverse == has_flag(t, pos));
        assert(chars.position() == width_start(t, pos));
        let ghost start = width_start(t, pos);

        loop
            invariant
                chars.text() == t,
                opens_escape(t, pos),
                start == width_start(t, pos),
                start <= chars.position() <= t.len(),
                forall|i: int| start <= i < chars.position() ==> is_digit(#[trigger] t[i]),
                width == if chars.position() > start {
                    Some(width_value(t, start, chars.position()) as u32)
                } else {
                    None
                },
                0 <= width_value(t, start, chars.position()) < 0x1_0000_0000,
            ensures
                chars.position() == specifier_index(t, pos),
                width == width_at(t, pos),
            decreases t.len() - chars.position(),
        {
            let digit: u32 = match chars.peek() {
                Some(c) => {
                    if '0' <= c && c <= '9' {
                        (c as u32) - ('0' as u32)
                    } else {
                        proof {
                            lemma_digits_end_from_inside(t, start, chars.position());
                        }
                        break ;
                    }
                },
                None => {
                    proof {
                        lemma_digits_end_from_inside(t, start, chars.position());
                    }
                    break ;
                },
            };
            chars.next();
            let so_far: u64 = match width {
                Some(w) => w as u64,
                None => 0,
            };
            let widened: u64 = (so_far * 10 + digit as u64) % 0x1_0000_0000;
            width = Some(widened as u32);
        }

        match chars.next() {
            Some(specifier) => Ok(Some(Params { symbol, specifier, width, reverse })),
            None => Err(Error::TrailingSymbol(symbol)),
        }
    }
}

} // verus!
