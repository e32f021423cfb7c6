//! Expanding one escape: what each family writes, and the dispatcher that
//! picks the family and writes it.

use vstd::prelude::*;
use vstd::string::StringExecFns;
use vstd::utf8::{encode_utf8, is_ascii_chars, is_ascii_chars_encode_utf8};
use rand::rngs::StdRng;
use crate::corpus::{Category, Corpus};
use crate::date::{date_format, field_pattern, field_text, lemma_date_tokens_are_ascii, Moment};
use crate::error::Error;
use crate::family::{classify, family_of, Family, Generator};
use crate::params::{is_symbol, Params};

verus! {

/// The character that pads a word to its width.
pub const FILLER: char = '.';

/// A run of `n` filler characters.
pub open spec fn filler(n: nat) -> Seq<char> {
    Seq::new(n, |i: int| FILLER)
}

/// The number of filler characters that bring `word` to `width`: the
/// difference between the width and the length of the word in UTF-8 bytes,
/// and none where the width is absent or the word is at least as long.
pub open spec fn padding(word: Seq<char>, width: Option<u32>) -> nat {
    match width {
        Some(w) if w > encode_utf8(word).len() => (w - encode_utf8(word).len()) as nat,
        _ => 0,
    }
}

/// A word with its padding: the padding comes first, which sets the word
/// to the right, unless `reverse` asks for the word first. The word is
/// never cut.
pub open spec fn aligned(word: Seq<char>, width: Option<u32>, reverse: bool) -> Seq<char> {
    if reverse {
        word + filler(padding(word, width))
    } else {
        filler(padding(word, width)) + word
    }
}

/// The number of characters in a run: the width, and one where it is
/// absent.
pub open spec fn run_length(width: Option<u32>) -> nat {
    match width {
        Some(w) => w as nat,
        None => 1,
    }
}

/// Whether `run` is a run of `length` characters of the generator.
pub open spec fn is_run(generator: Generator, length: nat, run: Seq<char>) -> bool {
    &&& run.len() == length
    &&& forall|i: int| 0 <= i < run.len() ==> generator.yields(#[trigger] run[i])
}

/// How an expansion went on.
#[derive(Debug, Clone, Copy, PartialEq, Eq)]
pub enum Step {
    /// The expansion is written.
    Done,
    /// Nothing is written: the list of this category has to be loaded
    /// first.
    Needs(Category),
}

/// Why rendering halts.
pub enum Halt {
    /// The template is rendered to its end.
    Finished,
    /// An escape asks for a word of a category whose list is not loaded.
    Paused(Category),
    /// The template ends inside an escape with this introducer.
    Trailing(char),
    /// An escape with this introducer and specifier names no expansion.
    Unknown(char, char),
    /// The formatter refused a date field.
    Unformattable,
}

/// Whether `result` is the report of `halt`. Each halt has one report, but
/// for the formatter's error, whose value is the formatter's own.
pub open spec fn reports(result: Result<Step, Error>, halt: Halt) -> bool {
    match halt {
        Halt::Finished => result == Ok::<Step, Error>(Step::Done),
        Halt::Paused(category) => result == Ok::<Step, Error>(Step::Needs(category)),
        Halt::Trailing(symbol) => result == Err::<Step, Error>(Error::TrailingSymbol(symbol)),
        Halt::Unknown(symbol, specifier) => result == Err::<Step, Error>(
            Error::UnknownSpecifier(symbol, specifier),
        ),
        Halt::Unformattable => result matches Err(Error::Fmt(_)),
    }
}

/// What stands in the way of expanding `params`, if anything: a pair that
/// names no expansion, a word list that is not loaded, or a date field that
/// the formatter refuses.
pub open spec fn obstacle(params: Params, corpus: Corpus, date: Moment) -> Option<Halt> {
    match family_of(params.symbol, params.specifier) {
        None => Some(Halt::Unknown(params.symbol, params.specifier)),
        Some(Family::Word(category)) => if corpus.list(category) is None {
            Some(Halt::Paused(category))
        } else {
            None
        },
        Some(Family::DateField) => if field_text(
            date.seconds(),
            date.nanos(),
            date.offset(),
            field_pattern(params.specifier),
        ) is None {
            Some(Halt::Unformattable)
        } else {
            None
        },
        Some(_) => None,
    }
}

/// Whether `piece` is an expansion of `params`. A literal escape has one:
/// its specifier. A word escape has one for each word of its list: the word
/// aligned to the width. A run has every run of its length over its
/// generator. A date field has one: what the formatter writes.
pub open spec fn expands_to(params: Params, corpus: Corpus, date: Moment, piece: Seq<char>) -> bool {
    match family_of(params.symbol, params.specifier) {
        None => false,
        Some(Family::Literal) => piece == seq![params.specifier],
        Some(Family::Word(category)) => {
            &&& corpus.list(category) is Some
            &&& exists|k: int|
                0 <= k < corpus.list(category)->0.len() && piece == aligned(
                    #[trigger] corpus.list(category)->0[k],
                    params.width,
                    params.reverse,
                )
        },
        Some(Family::Run(generator)) => is_run(generator, run_length(params.width), piece),
        Some(Family::DateField) => field_text(
            date.seconds(),
            date.nanos(),
            date.offset(),
            field_pattern(params.specifier),
        ) == Some(piece),
    }
}

/// Writes `word` with the padding that brings it to `width`.
pub fn emit_word(out: &mut String, word: &str, width: Option<u32>, reverse: bool)
    ensures
        final(out)@ == old(out)@ + aligned(word@, width, reverse),
{
    if reverse {
        out.append(word);
    }
    let ghost start = out@;
    if let Some(width) = width {
        let length = word.as_bytes().len();
        let target = width as usize;
        let mut at: usize = length;
        while at < target
            invariant
                length <= at,
                at <= target || at == length,
                out@ == start + filler((at - length) as nat),
            decreases target - at,
        {
            out.push(FILLER);
            at = at + 1;
        }
        assert(at - length == padding(word@, Some(width)));
    }
    assert(out@ == start + filler(padding(word@, width)));
    if !reverse {
        out.append(word);
    }
}

/// Writes `count` characters of the generator, each drawn by itself.
pub fn emit_run(out: &mut String, rng: &mut StdRng, generator: Generator, count: u32)
    ensures
        exists|run: Seq<char>|
            is_run(generator, count as nat, run) && final(out)@ == old(out)@ + run,
{
    let ghost before = out@;
    let ghost mut run: Seq<char> = Seq::empty();
    let mut done: u32 = 0;
    while done < count
        invariant
            done <= count,
            is_run(generator, done as nat, run),
            out@ == before + run,
        decreases count - done,
    {
        let c = generator.draw(rng);
        out.push(c);
        proof {
            run = run.push(c);
        }
        done = done + 1;
    }
}

/// Writes a formatted date field, or hands on the formatter's error and
/// writes nothing.
pub fn emit_date(out: &mut String, formatted: Result<String, std::fmt::Error>) -> (done: Result<
    (),
    Error,
>)
    ensures
        match formatted {
            Ok(text) => done is Ok && final(out)@ == old(out)@ + text@,
            Err(error) => done == Err::<(), Error>(Error::Fmt(error)) && final(out)@ == old(out)@,
        },
{
    match formatted {
        Ok(text) => {
            out.append(text.as_str());
            Ok(())
        },
        Err(error) => Err(Error::Fmt(error)),
    }
}

/// Expands one escape onto `out`. Where nothing stands in the way, one
/// expansion of the escape is appended. Where something does, `out` is
/// left as it was and the result reports the obstacle: `Needs` for a word
/// list that is not loaded, `UnknownSpecifier` with both characters for a
/// pair that names no expansion, the formatter's error for a date field
/// that it refuses.
pub fn expand(
    out: &mut String,
    rng: &mut StdRng,
    corpus: &Corpus,
    date: &Moment,
    params: &Params,
) -> (step: Result<Step, Error>)
    ensures
        match obstacle(*params, *corpus, *date) {
            Some(halt) => reports(step, halt) && final(out)@ == old(out)@,
            None => step == Ok::<Step, Error>(Step::Done) && exists|piece: Seq<char>|
                expands_to(*params, *corpus, *date, piece) && final(out)@ == old(out)@ + piece,
        },
{
    let ghost before = out@;
    match classify(params.symbol, params.specifier) {
        None => Err(Error::UnknownSpecifier(params.symbol, params.specifier)),
        Some(Family::Literal) => {
            out.push(params.specifier);
            assert(expands_to(*params, *corpus, *date, seq![params.specifier]));
            assert(out@ == before + seq![params.specifier]);
            Ok(Step::Done)
        },
        Some(Family::Word(category)) => {
            match corpus.get(category, rng) {
                Some(word) => {
                    emit_word(out, word, params.width, params.reverse);
                    proof {
                        let list = corpus.list(category)->0;
                        let k = choose|k: int| 0 <= k < list.len() && list[k] == word@;
                        assert(list[k] == word@);
                        assert(expands_to(
                            *params,
                            *corpus,
                            *date,
                            aligned(word@, params.width, params.reverse),
                        ));
                    }
                    Ok(Step::Done)
                },
                None => Ok(Step::Needs(category)),
            }
        },
        Some(Family::Run(generator)) => {
            let count = match params.width {
                Some(width) => width,
                None => 1,
            };
            emit_run(out, rng, generator, count);
            proof {
                let run = choose|run: Seq<char>|
                    is_run(generator, count as nat, run) && out@ == before + run;
                assert(expands_to(*params, *corpus, *date, run));
            }
            Ok(Step::Done)
        },
        Some(Family::DateField) => {
            proof {
                lemma_date_tokens_are_ascii(params.specifier);
            }
            let pattern = date_format(params.specifier);
            let formatted = date.field(pattern.as_str());
            match emit_date(out, formatted) {
                Ok(()) => {
                    assert(expands_to(*params, *corpus, *date, formatted->Ok_0@));
                    Ok(Step::Done)
                },
                Err(error) => Err(error),
            }
        },
    }
}

/// An escape whose specifier is an introducer expands to that specifier
/// alone, whatever its own introducer, flag and width are, and nothing
/// stands in its way.
pub proof fn lemma_literal_escape(params: Params, corpus: Corpus, date: Moment, piece: Seq<char>)
    requires
        is_symbol(params.specifier),
    ensures
        obstacle(params, corpus, date) is None,
        expands_to(params, corpus, date, piece) <==> piece == seq![params.specifier],
{
}

/// Padding fills the gap between a word and a wider width, on the left by
/// default and on the right under the flag; a word that is as long as the
/// width or longer, or an absent width, gets none. Lengths are counted in
/// UTF-8 bytes.
pub proof fn lemma_alignment(word: Seq<char>, width: Option<u32>, reverse: bool)
    ensures
        match width {
            Some(w) if encode_utf8(word).len() < w => aligned(word, width, reverse) == if reverse {
                word + filler((w - encode_utf8(word).len()) as nat)
            } else {
                filler((w - encode_utf8(word).len()) as nat) + word
            },
            _ => aligned(word, width, reverse) == word,
        },
        aligned(word, width, reverse).len() == word.len() + padding(word, width),
        forall|i: int| 0 <= i < padding(word, width) ==> #[trigger] filler(padding(word, width))[i] == FILLER,
{
    assert(word + filler(0) == word);
    assert(filler(0) + word == word);
}

/// For a word of ASCII characters the padding is the number of characters
/// by which the word falls short of the width.
pub proof fn lemma_ascii_padding(word: Seq<char>, width: u32)
    requires
        is_ascii_chars(word),
    ensures
        padding(word, Some(width)) == if word.len() < width {
            width - word.len()
        } else {
            0
        },
{
    is_ascii_chars_encode_utf8(word);
}

/// From a list of one word every word escape of its category expands to
/// that word, aligned: the draw has no choice.
pub proof fn lemma_single_word(
    params: Params,
    category: Category,
    word: Seq<char>,
    corpus: Corpus,
    date: Moment,
    piece: Seq<char>,
)
    requires
        family_of(params.symbol, params.specifier) == Some(Family::Word(category)),
        corpus.list(category) == Some(seq![word]),
    ensures
        obstacle(params, corpus, date) is None,
        expands_to(params, corpus, date, piece) <==> piece == aligned(
            word,
            params.width,
            params.reverse,
        ),
{
    let list = corpus.list(category)->0;
    assert(list[0] == word);
    if piece == aligned(word, params.width, params.reverse) {
        assert(piece == aligned(list[0], params.width, params.reverse));
    }
}

/// A run of decimal digits with width `w` is `w` characters long, and each
/// of them is an ASCII digit.
pub proof fn lemma_decimal_run(params: Params, corpus: Corpus, date: Moment, piece: Seq<char>)
    requires
        params.symbol == '%',
        params.specifier == 'd',
        expands_to(params, corpus, date, piece),
    ensures
        obstacle(params, corpus, date) is None,
        piece.len() == run_length(params.width),
        params.width matches Some(w) ==> piece.len() == w,
        forall|i: int| 0 <= i < piece.len() ==> '0' <= #[trigger] piece[i] <= '9',
{
}

/// A pair of introducer and specifier that names no expansion stands in
/// the way of its escape, and the report carries both characters.
pub proof fn lemma_unknown_specifier(params: Params, corpus: Corpus, date: Moment)
    requires
        family_of(params.symbol, params.specifier) is None,
    ensures
        obstacle(params, corpus, date) == Some(Halt::Unknown(params.symbol, params.specifier)),
        forall|step: Result<Step, Error>|
            reports(step, Halt::Unknown(params.symbol, params.specifier)) <==> step == Err::<
                Step,
                Error,
            >(Error::UnknownSpecifier(params.symbol, params.specifier)),
        forall|piece: Seq<char>| !expands_to(params, corpus, date, piece),
{
}

} // verus!
