//! Date fields: the moment that is formatted, the tokens that a template
//! may name and the call that formats one of them.

use vstd::prelude::*;
use vstd::string::StringExecFns;
use std::fmt::Write;
use crate::text::is_ascii_char;

verus! {

/// The earliest second that a `Moment` can hold: the start of the year 0.
pub const FIRST_SECOND: i64 = -62_167_219_200;

/// The latest second that a `Moment` can hold: the end of the year 9999.
pub const LAST_SECOND: i64 = 253_402_300_799;

/// The bound that the offset of a `Moment` stays under on both sides: one
/// day, in seconds.
pub const OFFSET_BOUND: i32 = 86_400;

/// The bound that the nanoseconds of a `Moment` stay under: one second.
pub const NANOS_BOUND: u32 = 1_000_000_000;

/// Whether the three numbers describe a moment that can be formatted.
pub open spec fn is_moment(seconds: int, nanos: int, offset: int) -> bool {
    &&& FIRST_SECOND <= seconds <= LAST_SECOND
    &&& 0 <= nanos < NANOS_BOUND
    &&& -OFFSET_BOUND < offset < OFFSET_BOUND
}

/// A point in time as local clocks show it: seconds since the start of 1970
/// in UTC, the nanoseconds into that second, and the seconds by which local
/// time is ahead of UTC.
#[derive(Debug, Clone, Copy)]
pub struct Moment {
    seconds: i64,
    nanos: u32,
    offset: i32,
}

impl Moment {
    #[verifier::type_invariant]
    spec fn in_range(&self) -> bool {
        is_moment(self.seconds as int, self.nanos as int, self.offset as int)
    }

    /// Seconds since 1970-01-01 00:00:00 UTC, leap seconds not counted.
    pub closed spec fn seconds(&self) -> int {
        self.seconds as int
    }

    /// Nanoseconds since the last whole second.
    pub closed spec fn nanos(&self) -> int {
        self.nanos as int
    }

    /// Seconds that local time is ahead of UTC; negative west of Greenwich.
    pub closed spec fn offset(&self) -> int {
        self.offset as int
    }

    /// The moment with the given numbers, where they describe one.
    pub fn new(seconds: i64, nanos: u32, offset: i32) -> (moment: Option<Moment>)
        ensures
            moment is Some <==> is_moment(seconds as int, nanos as int, offset as int),
            moment matches Some(m) ==> m.seconds() == seconds && m.nanos() == nanos && m.offset()
                == offset,
    {
        if FIRST_SECOND <= seconds && seconds <= LAST_SECOND && nanos < NANOS_BOUND && -OFFSET_BOUND
            < offset && offset < OFFSET_BOUND {
            Some(Moment { seconds, nanos, offset })
        } else {
            None
        }
    }

    /// The text of one field of this moment; see `format_field`.
    pub(crate) fn field(&self, pattern: &str) -> (text: Result<String, std::fmt::Error>)
        ensures
            is_moment(self.seconds(), self.nanos(), self.offset()),
            match text {
                Ok(s) => field_text(self.seconds(), self.nanos(), self.offset(), pattern@) == Some(
                    s@,
                ),
                Err(_) => field_text(self.seconds(), self.nanos(), self.offset(), pattern@) is None,
            },
    {
        proof {
            use_type_invariant(self);
        }
        format_field(self.seconds, self.nanos, self.offset, pattern)
    }
}

/// The date and time tokens that a template may name behind the date
/// introducer.
pub open spec fn is_date_token(c: char) -> bool {
    ||| c == 'Y' || c == 'C' || c == 'y' || c == 'q' || c == 'm' || c == 'b' || c == 'B'
    ||| c == 'd' || c == 'a' || c == 'A' || c == 'w' || c == 'u' || c == 'U' || c == 'W'
    ||| c == 'G' || c == 'g' || c == 'V' || c == 'j' || c == 'D' || c == 'x' || c == 'F'
    ||| c == 'v' || c == 'H' || c == 'I' || c == 'P' || c == 'p' || c == 'M' || c == 'S'
    ||| c == 'f' || c == 'R' || c == 'T' || c == 'X' || c == 'r' || c == 'Z' || c == 'z'
    ||| c == '+' || c == 's'
}

/// Whether `ch` is one of the date and time tokens.
pub fn is_date_specifier(ch: char) -> (known: bool)
    ensures
        known == is_date_token(ch),
{
    matches!(
        ch,
        'Y' | 'C' | 'y' | 'q' | 'm' | 'b' | 'B' | 'd' | 'a' | 'A' | 'w' | 'u' | 'U' | 'W' | 'G'
            | 'g' | 'V' | 'j' | 'D' | 'x' | 'F' | 'v' | 'H' | 'I' | 'P' | 'p' | 'M' | 'S' | 'f'
            | 'R' | 'T' | 'X' | 'r' | 'Z' | 'z' | '+' | 's'
    )
}

/// Every date token is an ASCII character.
pub proof fn lemma_date_tokens_are_ascii(c: char)
    requires
        is_date_token(c),
    ensures
        is_ascii_char(c),
{
}

/// The pattern that asks for one token: a percent sign and the token.
pub open spec fn field_pattern(specifier: char) -> Seq<char> {
    seq!['%', specifier]
}

/// The pattern that asks the formatter for the field that `specifier`
/// names.
pub fn date_format(specifier: char) -> (pattern: String)
    requires
        is_ascii_char(specifier),
    ensures
        pattern@ == field_pattern(specifier),
{
    let mut pattern = String::from_str("%");
    proof {
        reveal_strlit("%");
    }
    pattern.push(specifier);
    assert(pattern@ == field_pattern(specifier));
    pattern
}

/// What chrono writes for the moment `seconds`, `nanos` seen at `offset`
/// under the strftime pattern `pattern`; `None` where its formatter reports
/// an error.
pub uninterp spec fn field_text(seconds: int, nanos: int, offset: int, pattern: Seq<char>) -> Option<
    Seq<char>,
>;

/// `chrono::DateTime::format`, on the moment that `DateTime::from_timestamp`
/// makes of `seconds` and `nanos` and that `DateTime::with_timezone` moves
/// to `FixedOffset::east_opt(offset)`, written out through `Display`. The
/// two constructors accept every moment that `is_moment` admits. The text
/// depends on the four arguments alone; a pattern or a field that the
/// formatter refuses comes back as the error of `Display`.
#[verifier::external_body]
fn format_field(seconds: i64, nanos: u32, offset: i32, pattern: &str) -> (text: Result<
    String,
    std::fmt::Error,
>)
    requires
        is_moment(seconds as int, nanos as int, offset as int),
    ensures
        match text {
            Ok(s) => field_text(seconds as int, nanos as int, offset as int, pattern@) == Some(s@),
            Err(_) => field_text(seconds as int, nanos as int, offset as int, pattern@) is None,
        },
{
    let zone = chrono::FixedOffset::east_opt(offset).unwrap();
    let moment = chrono::DateTime::from_timestamp(seconds, nanos).unwrap().with_timezone(&zone);
    let mut text = String::new();
    write!(text, "{}", moment.format(pattern))?;
    Ok(text)
}

} // verus!
