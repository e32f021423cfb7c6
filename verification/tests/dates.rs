use std::path::PathBuf;

use namegen::corpus::Corpus;
use namegen::cursor::Cursor;
use namegen::date::{date_format, is_date_specifier, Moment, FIRST_SECOND, LAST_SECOND};
use namegen::error::Error;
use namegen::expand::{emit_date, Step};
use namegen::render::display;
use rand::rngs::StdRng;
use rand::SeedableRng;

const TOKENS: &str = "YCyqmbBdaAwuUWGgVjDxFvHIPpMSfRTXrZz+s";

fn render_at(moment: &Moment, template: &str) -> (Result<Step, Error>, String) {
    let mut out = String::new();
    let mut rng = StdRng::seed_from_u64(0);
    let mut cursor = Cursor::new(template);
    let corpus = Corpus::new(PathBuf::new());
    let step = display(&mut out, &mut rng, &corpus, moment, &mut cursor);
    (step, out)
}

fn field(moment: &Moment, token: char) -> String {
    let (step, out) = render_at(moment, &format!("@{}", token));
    assert!(matches!(step, Ok(Step::Done)));
    out.strip_suffix('\n').unwrap().to_string()
}

#[test]
fn the_date_tokens_are_known() {
    for token in TOKENS.chars() {
        assert!(is_date_specifier(token));
    }
    assert_eq!(TOKENS.chars().count(), 37);
}

#[test]
fn other_characters_are_no_date_tokens() {
    let known = (0u32..0x300).filter_map(char::from_u32).filter(|c| is_date_specifier(*c)).count();
    assert_eq!(known, 37);
    for other in ['e', 'h', 'k', 'l', 'c', 'n', 't', 'E', 'N', 'L', '%', '@', '-', '0', ' ', 'é'] {
        assert!(!is_date_specifier(other));
    }
}

#[test]
fn pattern_is_percent_and_token() {
    assert_eq!(date_format('Y'), "%Y");
    assert_eq!(date_format('+'), "%+");
    assert_eq!(date_format('s'), "%s");
}

#[test]
fn moment_takes_what_can_be_formatted() {
    assert!(Moment::new(0, 0, 0).is_some());
    assert!(Moment::new(FIRST_SECOND, 0, -86_399).is_some());
    assert!(Moment::new(LAST_SECOND, 999_999_999, 86_399).is_some());
    assert!(Moment::new(FIRST_SECOND - 1, 0, 0).is_none());
    assert!(Moment::new(LAST_SECOND + 1, 0, 0).is_none());
    assert!(Moment::new(0, 1_000_000_000, 0).is_none());
    assert!(Moment::new(0, 0, 86_400).is_none());
    assert!(Moment::new(0, 0, -86_400).is_none());
}

#[test]
fn calendar_fields_in_utc() {
    let moment = Moment::new(1_431_648_000, 0, 0).unwrap();
    assert_eq!(field(&moment, 'Y'), "2015");
    assert_eq!(field(&moment, 'C'), "20");
    assert_eq!(field(&moment, 'y'), "15");
    assert_eq!(field(&moment, 'q'), "2");
    assert_eq!(field(&moment, 'm'), "05");
    assert_eq!(field(&moment, 'b'), "May");
    assert_eq!(field(&moment, 'B'), "May");
    assert_eq!(field(&moment, 'd'), "15");
    assert_eq!(field(&moment, 'a'), "Fri");
    assert_eq!(field(&moment, 'A'), "Friday");
    assert_eq!(field(&moment, 'w'), "5");
    assert_eq!(field(&moment, 'u'), "5");
    assert_eq!(field(&moment, 'j'), "135");
    assert_eq!(field(&moment, 'D'), "05/15/15");
    assert_eq!(field(&moment, 'x'), "05/15/15");
    assert_eq!(field(&moment, 'F'), "2015-05-15");
    assert_eq!(field(&moment, 'G'), "2015");
    assert_eq!(field(&moment, 'g'), "15");
    assert_eq!(field(&moment, 'V'), "20");
}

#[test]
fn clock_fields_in_utc() {
    let moment = Moment::new(1_431_648_000 + 13 * 3600 + 7 * 60 + 9, 26_490_000, 0).unwrap();
    assert_eq!(field(&moment, 'H'), "13");
    assert_eq!(field(&moment, 'I'), "01");
    assert_eq!(field(&moment, 'P'), "pm");
    assert_eq!(field(&moment, 'p'), "PM");
    assert_eq!(field(&moment, 'M'), "07");
    assert_eq!(field(&moment, 'S'), "09");
    assert_eq!(field(&moment, 'f'), "026490000");
    assert_eq!(field(&moment, 'R'), "13:07");
    assert_eq!(field(&moment, 'T'), "13:07:09");
    assert_eq!(field(&moment, 'X'), "13:07:09");
    assert_eq!(field(&moment, 'r'), "01:07:09 PM");
    assert_eq!(field(&moment, 'z'), "+0000");
    assert_eq!(field(&moment, 's'), "1431695229");
}

#[test]
fn offset_moves_the_local_clock() {
    let east = Moment::new(1_431_648_000, 0, 2 * 3600).unwrap();
    assert_eq!(field(&east, 'H'), "02");
    assert_eq!(field(&east, 'z'), "+0200");
    assert_eq!(field(&east, 'Z'), "+02:00");
    assert_eq!(field(&east, 's'), "1431648000");
    assert_eq!(field(&east, '+'), "2015-05-15T02:00:00+02:00");

    let west = Moment::new(1_431_648_000, 0, -(5 * 3600 + 1800)).unwrap();
    assert_eq!(field(&west, 'F'), "2015-05-14");
    assert_eq!(field(&west, 'A'), "Thursday");
    assert_eq!(field(&west, 'H'), "18");
    assert_eq!(field(&west, 'M'), "30");
    assert_eq!(field(&west, 'z'), "-0530");
}

#[test]
fn every_date_token_formats() {
    let moments = [
        Moment::new(0, 0, 0).unwrap(),
        Moment::new(1_431_648_000, 123_456_789, 3600).unwrap(),
        Moment::new(FIRST_SECOND, 0, -86_399).unwrap(),
        Moment::new(LAST_SECOND, 999_999_999, 86_399).unwrap(),
    ];
    for moment in &moments {
        for token in TOKENS.chars() {
            let (step, out) = render_at(moment, &format!("@{}", token));
            assert!(matches!(step, Ok(Step::Done)));
            assert!(out.ends_with('\n'));
            assert!(out.len() > 1);
        }
    }
}

#[test]
fn date_field_ignores_flag_and_width() {
    let moment = Moment::new(1_431_648_000, 0, 0).unwrap();
    assert_eq!(render_at(&moment, "@-12Y").1, "2015\n");
    assert_eq!(render_at(&moment, "@9d").1, "15\n");
}

#[test]
fn date_fields_stand_in_their_text() {
    let moment = Moment::new(1_431_648_000, 0, 0).unwrap();
    let (step, out) = render_at(&moment, "log-@Y@m@d.txt");
    assert!(matches!(step, Ok(Step::Done)));
    assert_eq!(out, "log-20150515.txt\n");
}

#[test]
fn formatted_field_is_written() {
    let mut out = String::from("on ");
    let done = emit_date(&mut out, Ok(String::from("Friday")));
    assert!(done.is_ok());
    assert_eq!(out, "on Friday");
}

#[test]
fn formatter_error_is_handed_on() {
    let mut out = String::from("on ");
    let done = emit_date(&mut out, Err(std::fmt::Error));
    assert!(matches!(done, Err(Error::Fmt(_))));
    assert_eq!(out, "on ");
}
