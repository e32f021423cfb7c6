use namegen::args::Args;
use namegen::error::Error;
use namegen::text::chars_of;

#[test]
fn unknown_specifier_names_both_characters() {
    assert_eq!(Error::UnknownSpecifier('%', 'Q').message(), "Unknown specifier '%Q'");
    assert_eq!(Error::UnknownSpecifier('@', 'é').message(), "Unknown specifier '@é'");
}

#[test]
fn trailing_symbol_names_the_introducer() {
    assert_eq!(Error::TrailingSymbol('%').message(), "Trailing symbol '%'");
    assert_eq!(Error::TrailingSymbol('@').message(), "Trailing symbol '@'");
}

#[test]
fn io_error_shows_its_own_text() {
    let inner = std::io::Error::new(std::io::ErrorKind::NotFound, "no such list");
    let error = Error::from(inner);
    assert!(matches!(error, Error::IO(_)));
    assert_eq!(error.message(), "no such list");
}

#[test]
fn fmt_error_shows_its_own_text() {
    let error = Error::from(std::fmt::Error);
    assert!(matches!(error, Error::Fmt(_)));
    assert_eq!(error.message(), std::fmt::Error.to_string());
}

#[test]
fn characters_of_a_string() {
    assert_eq!(chars_of(""), Vec::<char>::new());
    assert_eq!(chars_of("a%é"), vec!['a', '%', 'é']);
}

#[test]
fn arguments_hold_template_and_directory() {
    let args = Args { format: String::from("%N"), corpus: None };
    assert_eq!(args.format, "%N");
    assert!(args.corpus.is_none());
}
