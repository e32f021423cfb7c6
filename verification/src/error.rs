//! The ways in which rendering a template can fail.

use vstd::prelude::*;
use vstd::string::StringExecFns;

verus! {

/// `std::io::Error`, carried through as an opaque value.
#[verifier::external_type_specification]
#[verifier::external_body]
pub struct ExIoError(std::io::Error);

/// `std::fmt::Error`, carried through as an opaque value.
#[verifier::external_type_specification]
#[verifier::external_body]
pub struct ExFmtError(std::fmt::Error);

/// Why a render stopped before the end of the template.
#[derive(Debug)]
pub enum Error {
    /// Reading a word list or writing the output failed.
    IO(std::io::Error),
    /// A value could not be formatted.
    Fmt(std::fmt::Error),
    /// An escape is complete but its introducer and specifier name no
    /// expansion; the two characters are the introducer and the specifier.
    UnknownSpecifier(char, char),
    /// The template ends inside an escape; the character is its introducer.
    TrailingSymbol(char),
}

impl From<std::io::Error> for Error {
    fn from(error: std::io::Error) -> (e: Error) {
        Error::IO(error)
    }
}

impl vstd::std_specs::convert::FromSpecImpl<std::io::Error> for Error {
    open spec fn obeys_from_spec() -> bool {
        true
    }

    open spec fn from_spec(error: std::io::Error) -> Error {
        Error::IO(error)
    }
}

impl From<std::fmt::Error> for Error {
    fn from(error: std::fmt::Error) -> (e: Error) {
        Error::Fmt(error)
    }
}

impl vstd::std_specs::convert::FromSpecImpl<std::fmt::Error> for Error {
    open spec fn obeys_from_spec() -> bool {
        true
    }

    open spec fn from_spec(error: std::fmt::Error) -> Error {
        Error::Fmt(error)
    }
}

/// The message for an escape that names no expansion.
pub open spec fn unknown_specifier_text(symbol: char, specifier: char) -> Seq<char> {
    "Unknown specifier '"@ + seq![symbol, specifier] + "'"@
}

/// The message for a template that ends inside an escape.
pub open spec fn trailing_symbol_text(symbol: char) -> Seq<char> {
    "Trailing symbol '"@ + seq![symbol] + "'"@
}

/// The text that `Display` gives for a `std::io::Error`. It depends on the
/// platform, so nothing is claimed of it.
#[verifier::external_body]
fn io_error_text(error: &std::io::Error) -> String {
    format!("{}", error)
}

/// The text that `Display` gives for a `std::fmt::Error`. Nothing is claimed
/// of it.
#[verifier::external_body]
fn fmt_error_text(error: &std::fmt::Error) -> String {
    format!("{}", error)
}

impl Error {
    /// The message shown to the user. For the two template errors it is
    /// fixed by the characters they carry; for the other two it is whatever
    /// the wrapped error displays.
    pub fn message(&self) -> (text: String)
        ensures
            *self matches Error::UnknownSpecifier(symbol, specifier) ==> text@
                == unknown_specifier_text(symbol, specifier),
            *self matches Error::TrailingSymbol(symbol) ==> text@ == trailing_symbol_text(symbol),
    {
        match self {
            Error::IO(error) => io_error_text(error),
            Error::Fmt(error) => fmt_error_text(error),
            Error::UnknownSpecifier(symbol, specifier) => {
                let mut text = String::from_str("Unknown specifier '");
                text.push(*symbol);
                text.push(*specifier);
                text.append("'");
                assert(text@ == unknown_specifier_text(*symbol, *specifier));
                text
            },
            Error::TrailingSymbol(symbol) => {
                let mut text = String::from_str("Trailing symbol '");
                text.push(*symbol);
                text.append("'");
                assert(text@ == trailing_symbol_text(*symbol));
                text
            },
        }
    }
}

} // verus!
