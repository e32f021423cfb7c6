//! The families of expansion and the table that assigns an escape to one.

use vstd::prelude::*;
use rand::rngs::StdRng;
use crate::corpus::Category;
use crate::date::{is_date_specifier, is_date_token};
use crate::dice::{random_digit, random_letter};
use crate::params::is_symbol;

verus! {

/// The generators of single random characters.
#[derive(Debug, Clone, Copy, PartialEq, Eq, Structural)]
pub enum Generator {
    /// A decimal digit.
    Decimal,
    /// A hexadecimal digit with lower-case letters.
    HexLower,
    /// A hexadecimal digit with upper-case letters.
    HexUpper,
    /// A lower-case ASCII letter.
    LetterLower,
    /// An upper-case ASCII letter.
    LetterUpper,
}

/// What an escape expands to.
#[derive(Debug, Clone, Copy, PartialEq, Eq, Structural)]
pub enum Family {
    /// The specifier itself: the way to write an introducer in the output.
    Literal,
    /// A word drawn from the list of a category, aligned to the width.
    Word(Category),
    /// As many random characters as the width says, one where it is absent.
    Run(Generator),
    /// One field of the current date and time.
    DateField,
}

/// The family of the escape with the given introducer and specifier, by
/// priority: a specifier that is itself an introducer stands for itself
/// under any introducer; `%` takes the word and generator codes; `@` takes
/// the date tokens. `None` where the pair names no expansion.
pub open spec fn family_of(symbol: char, specifier: char) -> Option<Family> {
    if is_symbol(specifier) {
        Some(Family::Literal)
    } else if symbol == '%' && specifier == 'N' {
        Some(Family::Word(Category::Noun))
    } else if symbol == '%' && specifier == 'A' {
        Some(Family::Word(Category::Adjective))
    } else if symbol == '%' && specifier == 'C' {
        Some(Family::Word(Category::Color))
    } else if symbol == '%' && specifier == 'd' {
        Some(Family::Run(Generator::Decimal))
    } else if symbol == '%' && specifier == 'x' {
        Some(Family::Run(Generator::HexLower))
    } else if symbol == '%' && specifier == 'X' {
        Some(Family::Run(Generator::HexUpper))
    } else if symbol == '%' && specifier == 'l' {
        Some(Family::Run(Generator::LetterLower))
    } else if symbol == '%' && specifier == 'L' {
        Some(Family::Run(Generator::LetterUpper))
    } else if symbol == '@' && is_date_token(specifier) {
        Some(Family::DateField)
    } else {
        None
    }
}

/// The family of the escape with the given introducer and specifier, or
/// `None` where the pair names no expansion.
pub fn classify(symbol: char, specifier: char) -> (family: Option<Family>)
    ensures
        family == family_of(symbol, specifier),
{
    if specifier == '%' || specifier == '@' {
        return Some(Family::Literal);
    }
    if symbol == '%' {
        match specifier {
            'N' => Some(Family::Word(Category::Noun)),
            'A' => Some(Family::Word(Category::Adjective)),
            'C' => Some(Family::Word(Category::Color)),
            'd' => Some(Family::Run(Generator::Decimal)),
            'x' => Some(Family::Run(Generator::HexLower)),
            'X' => Some(Family::Run(Generator::HexUpper)),
            'l' => Some(Family::Run(Generator::LetterLower)),
            'L' => Some(Family::Run(Generator::LetterUpper)),
            _ => None,
        }
    } else if symbol == '@' && is_date_specifier(specifier) {
        Some(Family::DateField)
    } else {
        None
    }
}

/// The character that stands for `value` in base 16 or below: a decimal
/// digit under ten, then the letters from `a` or from `A` on.
pub open spec fn glyph_of(value: int, upper: bool) -> char {
    if value < 10 {
        ('0' as int + value) as char
    } else if upper {
        ('A' as int + value - 10) as char
    } else {
        ('a' as int + value - 10) as char
    }
}

/// The character that stands for `value` as a single digit.
pub fn digit_glyph(value: i32, upper: bool) -> (glyph: char)
    requires
        0 <= value < 16,
    ensures
        glyph == glyph_of(value as int, upper),
{
    let v: u8 = value as u8;
    if v < 10 {
        (48u8 + v) as char
    } else if upper {
        (65u8 + (v - 10)) as char
    } else {
        (97u8 + (v - 10)) as char
    }
}

impl Generator {
    /// The characters that the generator can yield.
    pub open spec fn yields(self, c: char) -> bool {
        match self {
            Generator::Decimal => '0' <= c <= '9',
            Generator::HexLower => '0' <= c <= '9' || 'a' <= c <= 'f',
            Generator::HexUpper => '0' <= c <= '9' || 'A' <= c <= 'F',
            Generator::LetterLower => 'a' <= c <= 'z',
            Generator::LetterUpper => 'A' <= c <= 'Z',
        }
    }

    /// Draws one character. Each call is a draw of its own.
    pub fn draw(self, rng: &mut StdRng) -> (c: char)
        ensures
            self.yields(c),
    {
        match self {
            Generator::Decimal => digit_glyph(random_digit(rng, 10), false),
            Generator::HexLower => digit_glyph(random_digit(rng, 16), false),
            Generator::HexUpper => digit_glyph(random_digit(rng, 16), true),
            Generator::LetterLower => random_letter(rng, 'a', 'z'),
            Generator::LetterUpper => random_letter(rng, 'A', 'Z'),
        }
    }
}

} // verus!
