//! Rendering a template: literal characters are copied, escapes are
//! expanded, and a line feed closes the output.

use vstd::prelude::*;
use vstd::seq_lib::lemma_flatten_concat;
use rand::rngs::StdRng;
use crate::corpus::{Category, Corpus};
use crate::cursor::Cursor;
use crate::date::Moment;
use crate::error::Error;
use crate::expand::{expand, expands_to, obstacle, reports, Halt, Step};
use crate::family::{family_of, Family};
use crate::params::{
    digits_end, is_symbol, lemma_digits_end, opens_escape, scan, scan_end, width_start, Params,
};
use crate::text::lemma_char_is_scalar;

verus! {

/// One unit of a template.
pub enum Token {
    /// A character that stands for itself.
    Literal(char),
    /// An escape.
    Escape(Params),
}

/// How a render proceeds from some index of a template.
pub struct Plan {
    /// The tokens that are rendered, in order.
    pub tokens: Seq<Token>,
    /// Why the render halts behind them.
    pub halt: Halt,
    /// Where the cursor is left.
    pub end: int,
}

impl Plan {
    /// This plan with one more token in front.
    pub open spec fn after(self, token: Token) -> Plan {
        Plan { tokens: seq![token] + self.tokens, halt: self.halt, end: self.end }
    }
}

/// An escape ends behind the index at which it opens, and within the
/// template.
pub proof fn lemma_scan_advances(t: Seq<char>, pos: int)
    requires
        opens_escape(t, pos),
    ensures
        pos < scan_end(t, pos) <= t.len(),
{
    lemma_digits_end(t, width_start(t, pos));
}

/// The plan of a render of `t` from index `pos`, in one pass from left to
/// right. A character that opens no escape is a literal token. A complete
/// escape with nothing in its way is a token too. The render halts at the
/// end of the template, with the cursor there; at a template that ends
/// inside an escape, with the cursor at the end; at an escape whose word
/// list is not loaded, with the cursor in front of the escape; and at an
/// escape that names no expansion or whose date field the formatter
/// refuses, with the cursor behind the escape.
pub open spec fn plan(t: Seq<char>, pos: int, corpus: Corpus, date: Moment) -> Plan
    decreases t.len() - pos,
{
    if pos < 0 || pos >= t.len() {
        Plan { tokens: Seq::empty(), halt: Halt::Finished, end: pos }
    } else {
        match scan(t, pos) {
            Err(_) => Plan {
                tokens: Seq::empty(),
                halt: Halt::Trailing(t[pos]),
                end: t.len() as int,
            },
            Ok(None) => plan(t, pos + 1, corpus, date).after(Token::Literal(t[pos])),
            Ok(Some(params)) => match obstacle(params, corpus, date) {
                Some(Halt::Paused(category)) => Plan {
                    tokens: Seq::empty(),
                    halt: Halt::Paused(category),
                    end: pos,
                },
                Some(halt) => Plan { tokens: Seq::empty(), halt, end: scan_end(t, pos) },
                None => {
                    proof {
                        lemma_scan_advances(t, pos);
                    }
                    plan(t, scan_end(t, pos), corpus, date).after(Token::Escape(params))
                },
            },
        }
    }
}

/// Whether `piece` is a rendering of `token`: a literal renders as itself,
/// an escape as one of its expansions.
pub open spec fn renders_as(token: Token, corpus: Corpus, date: Moment, piece: Seq<char>) -> bool {
    match token {
        Token::Literal(c) => piece == seq![c],
        Token::Escape(params) => expands_to(params, corpus, date, piece),
    }
}

/// What closes the output: a line feed behind a template that is rendered
/// to its end, and nothing otherwise.
pub open spec fn ending(halt: Halt) -> Seq<char> {
    match halt {
        Halt::Finished => seq!['\n'],
        _ => Seq::empty(),
    }
}

/// Whether `pieces` renders the tokens one for one.
pub open spec fn render_each(
    tokens: Seq<Token>,
    corpus: Corpus,
    date: Moment,
    pieces: Seq<Seq<char>>,
) -> bool {
    &&& pieces.len() == tokens.len()
    &&& forall|i: int|
        0 <= i < pieces.len() ==> renders_as(tokens[i], corpus, date, #[trigger] pieces[i])
}

/// Whether a render that follows `plan` can turn the output `before` into
/// `after`: behind what was there stand renderings of the tokens, in
/// order, and the ending.
pub open spec fn writes(
    plan: Plan,
    corpus: Corpus,
    date: Moment,
    before: Seq<char>,
    after: Seq<char>,
) -> bool {
    exists|pieces: Seq<Seq<char>>|
        #[trigger] render_each(plan.tokens, corpus, date, pieces) && after == before
            + pieces.flatten() + ending(plan.halt)
}

/// Moving the first of the tokens to come behind the tokens done leaves
/// the whole as it was.
proof fn lemma_step(done: Seq<Token>, token: Token, rest: Seq<Token>)
    ensures
        done + (seq![token] + rest) == done.push(token) + rest,
{
    assert(done + (seq![token] + rest) =~= done.push(token) + rest);
}

/// Renders the template from the cursor on and appends the result to
/// `out`, in one pass. What happens is fixed by `plan`, but for the random
/// draws. A template that is rendered to its end gets a line feed and the
/// result `Done`. At an escape that asks for a word list that is not
/// loaded the render pauses: the result is `Needs`, the cursor stands in
/// front of the escape, and a call with the list loaded takes the render
/// up from there. An error ends the render; what was rendered before it
/// stays in `out`.
pub fn display(
    out: &mut String,
    rng: &mut StdRng,
    corpus: &Corpus,
    date: &Moment,
    chars: &mut Cursor,
) -> (step: Result<Step, Error>)
    ensures
        final(chars).text() == old(chars).text(),
        final(chars).position() == plan(
            old(chars).text(),
            old(chars).position(),
            *corpus,
            *date,
        ).end,
        reports(step, plan(old(chars).text(), old(chars).position(), *corpus, *date).halt),
        writes(
            plan(old(chars).text(), old(chars).position(), *corpus, *date),
            *corpus,
            *date,
            old(out)@,
            final(out)@,
        ),
{
    let ghost t = chars.text();
    let ghost origin = chars.position();
    let ghost whole = plan(t, origin, *corpus, *date);
    let ghost before = out@;
    let ghost mut tokens: Seq<Token> = Seq::empty();
    let ghost mut pieces: Seq<Seq<char>> = Seq::empty();
    assert(whole.tokens == tokens + whole.tokens);
    assert(out@ == before + pieces.flatten());
    loop
        invariant
            t == old(chars).text(),
            before == old(out)@,
            whole == plan(t, old(chars).position(), *corpus, *date),
            chars.text() == t,
            whole.tokens == tokens + plan(t, chars.position(), *corpus, *date).tokens,
            whole.halt == plan(t, chars.position(), *corpus, *date).halt,
            whole.end == plan(t, chars.position(), *corpus, *date).end,
            render_each(tokens, *corpus, *date, pieces),
            out@ == before + pieces.flatten(),
        decreases t.len() - chars.position(),
    {
        let at = chars.offset();
        let ch = match chars.peek() {
            Some(ch) => ch,
            None => {
                out.push('\n');
                assert(whole.tokens == tokens);
                assert(out@ == before + pieces.flatten() + ending(whole.halt));
                return Ok(Step::Done);
            },
        };
        match Params::parse_from(chars) {
            Err(error) => {
                assert(whole.tokens == tokens);
                return Err(error);
            },
            Ok(None) => {
                out.push(ch);
                chars.next();
                proof {
                    let rest = plan(t, at + 1, *corpus, *date);
                    lemma_char_is_scalar(ch);
                    lemma_step(tokens, Token::Literal(ch), rest.tokens);
                    pieces.lemma_flatten_push(seq![ch]);
                    tokens = tokens.push(Token::Literal(ch));
                    pieces = pieces.push(seq![ch]);
                }
            },
            Ok(Some(params)) => {
                proof {
                    lemma_scan_advances(t, at as int);
                }
                let ghost midway = out@;
                match expand(out, rng, corpus, date, &params) {
                    Ok(Step::Done) => {
                        proof {
                            let piece = choose|piece: Seq<char>|
                                expands_to(params, *corpus, *date, piece) && out@ == midway + piece;
                            let rest = plan(t, scan_end(t, at as int), *corpus, *date);
                            lemma_char_is_scalar(params.symbol);
                            lemma_char_is_scalar(params.specifier);
                            lemma_step(tokens, Token::Escape(params), rest.tokens);
                            pieces.lemma_flatten_push(piece);
                            tokens = tokens.push(Token::Escape(params));
                            pieces = pieces.push(piece);
                        }
                    },
                    Ok(Step::Needs(category)) => {
                        chars.seek(at);
                        assert(whole.tokens == tokens);
                        return Ok(Step::Needs(category));
                    },
                    Err(error) => {
                        assert(whole.tokens == tokens);
                        return Err(error);
                    },
                }
            },
        }
    }
}

/// Pieces of one character each make up, flattened, the sequence of those
/// characters.
proof fn lemma_flatten_singletons(pieces: Seq<Seq<char>>, s: Seq<char>)
    requires
        pieces.len() == s.len(),
        forall|i: int| 0 <= i < s.len() ==> #[trigger] pieces[i] == seq![s[i]],
    ensures
        pieces.flatten() == s,
    decreases pieces.len(),
{
    if pieces.len() == 0 {
        assert(pieces.flatten() == s);
    } else {
        lemma_flatten_singletons(pieces.drop_last(), s.drop_last());
        pieces.drop_last().lemma_flatten_push(pieces.last());
        assert(pieces.drop_last().push(pieces.last()) == pieces);
        assert(s.drop_last() + seq![s.last()] == s);
    }
}

/// Where no introducer stands at or behind `pos`, the render from `pos`
/// runs to the end of the template over literal tokens, one for each
/// character.
pub proof fn lemma_plain_plan(t: Seq<char>, pos: int, corpus: Corpus, date: Moment)
    requires
        0 <= pos <= t.len(),
        forall|i: int| pos <= i < t.len() ==> !is_symbol(#[trigger] t[i]),
    ensures
        plan(t, pos, corpus, date).halt == Halt::Finished,
        plan(t, pos, corpus, date).end == t.len(),
        plan(t, pos, corpus, date).tokens.len() == t.len() - pos,
        forall|i: int|
            0 <= i < t.len() - pos ==> #[trigger] plan(t, pos, corpus, date).tokens[i]
                == Token::Literal(t[pos + i]),
    decreases t.len() - pos,
{
    if pos < t.len() {
        lemma_plain_plan(t, pos + 1, corpus, date);
        lemma_char_is_scalar(t[pos]);
        let rest = plan(t, pos + 1, corpus, date).tokens;
        assert(plan(t, pos, corpus, date).tokens == seq![Token::Literal(t[pos])] + rest);
        assert forall|i: int| 0 <= i < t.len() - pos implies #[trigger] plan(
            t,
            pos,
            corpus,
            date,
        ).tokens[i] == Token::Literal(t[pos + i]) by {
            if i > 0 {
                assert(plan(t, pos, corpus, date).tokens[i] == rest[i - 1]);
            }
        }
    }
}

/// A template that holds no introducer is rendered as itself, followed by
/// one line feed.
pub proof fn lemma_plain_template(
    t: Seq<char>,
    corpus: Corpus,
    date: Moment,
    before: Seq<char>,
    after: Seq<char>,
)
    requires
        forall|i: int| 0 <= i < t.len() ==> !is_symbol(#[trigger] t[i]),
        writes(plan(t, 0, corpus, date), corpus, date, before, after),
    ensures
        plan(t, 0, corpus, date).halt == Halt::Finished,
        after == before + t + seq!['\n'],
{
    lemma_plain_plan(t, 0, corpus, date);
    let whole = plan(t, 0, corpus, date);
    let pieces = choose|pieces: Seq<Seq<char>>|
        #[trigger] render_each(whole.tokens, corpus, date, pieces) && after == before
            + pieces.flatten() + ending(whole.halt);
    assert forall|i: int| 0 <= i < t.len() implies #[trigger] pieces[i] == seq![t[i]] by {
        assert(renders_as(whole.tokens[i], corpus, date, pieces[i]));
    }
    lemma_flatten_singletons(pieces, t);
}

/// An introducer directly followed by an introducer is rendered as the
/// second of the two, once.
pub proof fn lemma_doubled_introducer(
    first: char,
    second: char,
    corpus: Corpus,
    date: Moment,
    before: Seq<char>,
    after: Seq<char>,
)
    requires
        is_symbol(first),
        is_symbol(second),
        writes(plan(seq![first, second], 0, corpus, date), corpus, date, before, after),
    ensures
        plan(seq![first, second], 0, corpus, date).halt == Halt::Finished,
        after == before + seq![second] + seq!['\n'],
{
    let t = seq![first, second];
    let params = Params { symbol: first, specifier: second, width: None, reverse: false };
    reveal_with_fuel(digits_end, 2);
    reveal_with_fuel(plan, 2);
    assert(t[0] == first && t[1] == second);
    assert(scan(t, 0) == Ok::<Option<Params>, Error>(Some(params)));
    lemma_char_is_scalar(first);
    lemma_char_is_scalar(second);
    let whole = plan(t, 0, corpus, date);
    assert(whole.tokens == seq![Token::Escape(params)]);
    let pieces = choose|pieces: Seq<Seq<char>>|
        #[trigger] render_each(whole.tokens, corpus, date, pieces) && after == before
            + pieces.flatten() + ending(whole.halt);
    assert(renders_as(whole.tokens[0], corpus, date, pieces[0]));
    pieces.lemma_flatten_one_element();
}

/// Whether `later` holds every list that `earlier` holds, with the same
/// words: the state of a cache some loads after `earlier`.
pub open spec fn extends(later: Corpus, earlier: Corpus) -> bool {
    forall|category: Category| #[trigger]
        earlier.list(category) is Some ==> later.list(category) == earlier.list(category)
}

/// What an escape expands to from the lists of a cache, it expands to from
/// the lists of every cache that extends it, and nothing stands in its way
/// there that did not before.
proof fn lemma_lists_stay(
    params: Params,
    earlier: Corpus,
    later: Corpus,
    date: Moment,
    piece: Seq<char>,
)
    requires
        extends(later, earlier),
    ensures
        obstacle(params, earlier, date) is None ==> obstacle(params, later, date) is None,
        expands_to(params, earlier, date, piece) ==> expands_to(params, later, date, piece),
{
    match family_of(params.symbol, params.specifier) {
        Some(Family::Word(category)) => {
            assert(earlier.list(category) is Some ==> later.list(category) == earlier.list(
                category,
            ));
        },
        _ => {},
    }
}

/// A render that pauses for a word list goes on, once lists are loaded, as
/// the render of the whole would have gone: its tokens are the tokens
/// rendered up to the pause followed by those of the render from the pause
/// on, and it halts where and why that one halts.
pub proof fn lemma_plan_resumes(
    t: Seq<char>,
    pos: int,
    earlier: Corpus,
    later: Corpus,
    date: Moment,
)
    requires
        extends(later, earlier),
        plan(t, pos, earlier, date).halt is Paused,
    ensures
        plan(t, pos, later, date).tokens == plan(t, pos, earlier, date).tokens + plan(
            t,
            plan(t, pos, earlier, date).end,
            later,
            date,
        ).tokens,
        plan(t, pos, later, date).halt == plan(
            t,
            plan(t, pos, earlier, date).end,
            later,
            date,
        ).halt,
        plan(t, pos, later, date).end == plan(
            t,
            plan(t, pos, earlier, date).end,
            later,
            date,
        ).end,
    decreases t.len() - pos,
{
    let paused = plan(t, pos, earlier, date);
    let resumed = plan(t, paused.end, later, date);
    if 0 <= pos < t.len() {
        match scan(t, pos) {
            Err(_) => {},
            Ok(None) => {
                lemma_plan_resumes(t, pos + 1, earlier, later, date);
                let rest = plan(t, pos + 1, earlier, date);
                lemma_char_is_scalar(t[pos]);
                assert(seq![Token::Literal(t[pos])] + (rest.tokens + resumed.tokens) == (
                seq![Token::Literal(t[pos])] + rest.tokens) + resumed.tokens);
            },
            Ok(Some(params)) => {
                if obstacle(params, earlier, date) is None {
                    lemma_scan_advances(t, pos);
                    lemma_lists_stay(params, earlier, later, date, Seq::empty());
                    lemma_plan_resumes(t, scan_end(t, pos), earlier, later, date);
                    let rest = plan(t, scan_end(t, pos), earlier, date);
                    lemma_char_is_scalar(params.symbol);
                    lemma_char_is_scalar(params.specifier);
                    assert(seq![Token::Escape(params)] + (rest.tokens + resumed.tokens) == (
                    seq![Token::Escape(params)] + rest.tokens) + resumed.tokens);
                } else {
                    assert(paused.tokens + resumed.tokens == resumed.tokens);
                }
            },
        }
    }
}

/// A render in several calls writes what a render in one call can write:
/// where the first call pauses for a word list and a second call, with
/// more lists loaded, goes on from the pause, the two together turn the
/// output from `before` into `after` as one render of the template with
/// the lists of the second call can.
pub proof fn lemma_render_resumes(
    t: Seq<char>,
    pos: int,
    earlier: Corpus,
    later: Corpus,
    date: Moment,
    before: Seq<char>,
    middle: Seq<char>,
    after: Seq<char>,
)
    requires
        extends(later, earlier),
        plan(t, pos, earlier, date).halt is Paused,
        writes(plan(t, pos, earlier, date), earlier, date, before, middle),
        writes(
            plan(t, plan(t, pos, earlier, date).end, later, date),
            later,
            date,
            middle,
            after,
        ),
    ensures
        writes(plan(t, pos, later, date), later, date, before, after),
{
    let paused = plan(t, pos, earlier, date);
    let resumed = plan(t, paused.end, later, date);
    let whole = plan(t, pos, later, date);
    lemma_plan_resumes(t, pos, earlier, later, date);
    let first = choose|pieces: Seq<Seq<char>>|
        #[trigger] render_each(paused.tokens, earlier, date, pieces) && middle == before
            + pieces.flatten() + ending(paused.halt);
    let second = choose|pieces: Seq<Seq<char>>|
        #[trigger] render_each(resumed.tokens, later, date, pieces) && after == middle
            + pieces.flatten() + ending(resumed.halt);
    let pieces = first + second;
    assert forall|i: int| 0 <= i < pieces.len() implies renders_as(
        whole.tokens[i],
        later,
        date,
        #[trigger] pieces[i],
    ) by {
        if i < first.len() {
            assert(renders_as(paused.tokens[i], earlier, date, first[i]));
            match paused.tokens[i] {
                Token::Literal(_) => {},
                Token::Escape(params) => {
                    lemma_lists_stay(params, earlier, later, date, first[i]);
                },
            }
        } else {
            assert(renders_as(resumed.tokens[i - first.len()], later, date, second[i - first.len()]));
        }
    }
    lemma_flatten_concat(first, second);
    assert(render_each(whole.tokens, later, date, pieces));
    assert(after == before + pieces.flatten() + ending(whole.halt));
}

} // verus!
