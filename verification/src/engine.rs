//! The parsing engine as a state machine over mathematical values: what each
//! step of a parse yields, and the whole sequence that a parse yields.
use crate::arg::ArgumentKind;
use crate::common::{FlagSpelling, OptionName};
use crate::items::{Outcome, ParseFailure, StructuredItem, Yield};
use crate::registry::{positional_labels, resolve, trail_of, Registry};
use crate::token::{classify, Token};
use vstd::prelude::*;

verus! {

/// The state of a parse between two steps.
pub struct ParseState {
    /// How many tokens were consumed.
    pub index: nat,
    /// How many positional arguments were filled.
    pub position: nat,
    /// The options and switches that were given so far.
    pub found: Seq<OptionName>,
    /// The trail values gathered so far.
    pub trail: Seq<Seq<char>>,
    /// The switches of a group of short flags that are still to be yielded.
    pub pending: Seq<Seq<char>>,
    /// Whether a pass-along flag has ended the scan.
    pub passed: bool,
    /// The interrupt that the tokens hold, if any.
    pub interrupt: Option<Seq<char>>,
    /// Whether the parse has yielded all it will.
    pub finished: bool,
}

impl ParseState {
    /// The state in which nothing more is yielded.
    pub open spec fn finish(self) -> ParseState {
        ParseState { finished: true, ..self }
    }
}

/// Whether a token is a bare value.
pub open spec fn is_value(token: Seq<char>) -> bool {
    classify(token) is Value
}

/// The number of values in a row that the tokens hold from `from` on.
pub open spec fn value_run(tokens: Seq<Seq<char>>, from: int) -> nat
    decreases tokens.len() - from,
{
    if 0 <= from < tokens.len() && is_value(tokens[from]) {
        1 + value_run(tokens, from + 1)
    } else {
        0
    }
}

/// The long name of the interrupt that a token denotes, where the token is
/// a single flag whose spelling a declared interrupt claims.
pub open spec fn interrupt_of(defs: Registry, token: Seq<char>) -> Option<Seq<char>> {
    match classify(token) {
        Token::Flag(flag) => match resolve(defs, flag) {
            Some(ArgumentKind::Interrupt(name)) => Some(name.long()),
            _ => None,
        },
        _ => None,
    }
}

/// The long name of the first interrupt among the tokens from `from` on.
pub open spec fn first_interrupt(defs: Registry, tokens: Seq<Seq<char>>, from: int) -> Option<
    Seq<char>,
>
    decreases tokens.len() - from,
{
    if from < 0 || from >= tokens.len() {
        None
    } else if interrupt_of(defs, tokens[from]) is Some {
        interrupt_of(defs, tokens[from])
    } else {
        first_interrupt(defs, tokens, from + 1)
    }
}

/// The state in which a parse of `tokens` begins.
pub open spec fn initial_state(defs: Registry, tokens: Seq<Seq<char>>) -> ParseState {
    ParseState {
        index: 0,
        position: 0,
        found: Seq::empty(),
        trail: Seq::empty(),
        pending: Seq::empty(),
        passed: false,
        interrupt: first_interrupt(defs, tokens, 0),
        finished: false,
    }
}

/// What a group of short flags comes to, from its letter `from` on, where
/// `found` holds what was given before that letter: the names of its
/// switches in order, or the error of the first letter that is unknown, is no
/// switch, or repeats a switch.
pub open spec fn group_outcome(
    defs: Registry,
    found: Seq<OptionName>,
    token: Seq<char>,
    letters: Seq<char>,
    from: int,
) -> Result<Seq<OptionName>, ParseFailure>
    decreases letters.len() - from,
{
    if from < 0 || from >= letters.len() {
        Ok(Seq::empty())
    } else {
        match resolve(defs, FlagSpelling::Short(letters[from])) {
            None => Err(ParseFailure::UnknownOptionalArgument { arg: token }),
            Some(ArgumentKind::Switch(name)) => if found.contains(name) {
                Err(ParseFailure::DuplicateArgument { arg: token })
            } else {
                match group_outcome(defs, found.push(name), token, letters, from + 1) {
                    Ok(names) => Ok(seq![name] + names),
                    Err(failure) => Err(failure),
                }
            },
            Some(_) => Err(
                ParseFailure::GroupedNonSwitch {
                    arg: token,
                    invalid: FlagSpelling::Short(letters[from]).text(),
                },
            ),
        }
    }
}

/// The long names of a sequence of option names.
pub open spec fn long_names(names: Seq<OptionName>) -> Seq<Seq<char>> {
    names.map_values(|name: OptionName| name.long())
}

/// What the end of the scan yields: the first positional argument that was
/// not filled or a required trail without values as an error, else the
/// trail where one is declared, else nothing.
pub open spec fn finalize(defs: Registry, state: ParseState) -> Option<Yield> {
    let labels = positional_labels(defs);
    if state.position < labels.len() {
        Some(Err(ParseFailure::MissingPositionalArgument { arg: labels[state.position as int] }))
    } else {
        match trail_of(defs) {
            None => None,
            Some((label, required)) => if required && state.trail.len() == 0 {
                Some(Err(ParseFailure::MissingTrail { arg: label }))
            } else {
                Some(Ok(StructuredItem::Trail { values: state.trail }))
            },
        }
    }
}

/// Whether the values that the scan meets go to the trail: every position is
/// filled and a trail is declared.
pub open spec fn gathers_trail(defs: Registry, state: ParseState) -> bool {
    state.position >= positional_labels(defs).len() && trail_of(defs) is Some
}

/// The state once the run of values at the cursor has gone to the trail,
/// where values go there at all.
pub open spec fn absorb(defs: Registry, tokens: Seq<Seq<char>>, state: ParseState) -> ParseState {
    if gathers_trail(defs, state) {
        let run = value_run(tokens, state.index as int);
        ParseState {
            index: state.index + run,
            trail: state.trail + tokens.subrange(state.index as int, (state.index + run) as int),
            ..state
        }
    } else {
        state
    }
}

/// The state behind a failure, and the failure.
pub open spec fn fail(state: ParseState, failure: ParseFailure) -> (ParseState, Option<Yield>) {
    (state.finish(), Some(Err(failure)))
}

/// How many values an option takes.
pub enum Arity {
    /// Exactly one.
    Single,
    /// Any number.
    ZeroOrMore,
    /// At least one.
    OneOrMore,
}

/// The step that gives the option at the cursor the run of values behind it.
pub open spec fn take_values(tokens: Seq<Seq<char>>, state: ParseState, name: OptionName) -> (
    ParseState,
    Option<Yield>,
) {
    let after = state.index + 1;
    let run = value_run(tokens, after as int);
    (
        ParseState { index: after + run, found: state.found.push(name), ..state },
        Some(
            Ok(
                StructuredItem::OptionValues {
                    name: name.long(),
                    values: tokens.subrange(after as int, (after + run) as int),
                },
            ),
        ),
    )
}

/// The step on an option that takes values and stands at the cursor. A single
/// value must be the next token; a run of values ends before the first token
/// that is not a value, whatever that token is; where at least one value is
/// asked for and none is there, the parameter is missing.
pub open spec fn find_values(
    tokens: Seq<Seq<char>>,
    state: ParseState,
    arity: Arity,
    name: OptionName,
) -> (ParseState, Option<Yield>) {
    let token = tokens[state.index as int];
    let after = state.index + 1;
    match arity {
        Arity::Single => if after < tokens.len() && is_value(tokens[after as int]) {
            (
                ParseState { index: after + 1, found: state.found.push(name), ..state },
                Some(
                    Ok(
                        StructuredItem::OptionValue {
                            name: name.long(),
                            value: tokens[after as int],
                        },
                    ),
                ),
            )
        } else {
            fail(state, ParseFailure::MissingParameter { arg: token })
        },
        Arity::ZeroOrMore => take_values(tokens, state, name),
        Arity::OneOrMore => if value_run(tokens, after as int) == 0 {
            fail(state, ParseFailure::MissingParameter { arg: token })
        } else {
            take_values(tokens, state, name)
        },
    }
}

/// The step on a single flag that stands at the cursor.
pub open spec fn act_on_flag(
    defs: Registry,
    tokens: Seq<Seq<char>>,
    state: ParseState,
    flag: FlagSpelling,
) -> (ParseState, Option<Yield>) {
    let token = tokens[state.index as int];
    let after = state.index + 1;
    match resolve(defs, flag) {
        None => fail(state, ParseFailure::UnknownOptionalArgument { arg: token }),
        Some(kind) => match kind.option_name() {
            None => fail(state, ParseFailure::UnknownOptionalArgument { arg: token }),
            Some(name) => if state.found.contains(name) {
                fail(state, ParseFailure::DuplicateArgument { arg: token })
            } else {
                let given = state.found.push(name);
                match kind {
                    ArgumentKind::Switch(_) => (
                        ParseState { index: after, found: given, ..state },
                        Some(Ok(StructuredItem::SwitchHit { name: name.long() })),
                    ),
                    ArgumentKind::Interrupt(_) => (
                        state.finish(),
                        Some(Ok(StructuredItem::InterruptHit { name: name.long() })),
                    ),
                    ArgumentKind::PassAlong(_) => (
                        ParseState { index: after, passed: true, ..state },
                        Some(
                            Ok(
                                StructuredItem::PassAlongHit {
                                    name: name.long(),
                                    remaining: tokens.skip(after as int),
                                },
                            ),
                        ),
                    ),
                    ArgumentKind::OptionSingle(_) => find_values(
                        tokens,
                        state,
                        Arity::Single,
                        name,
                    ),
                    ArgumentKind::OptionOneOrMore(_) => find_values(
                        tokens,
                        state,
                        Arity::OneOrMore,
                        name,
                    ),
                    _ => find_values(tokens, state, Arity::ZeroOrMore, name),
                }
            },
        },
    }
}

/// The step on the token at the cursor, which is in range and, where values
/// go to the trail, is not a value.
pub open spec fn act(defs: Registry, tokens: Seq<Seq<char>>, state: ParseState) -> (
    ParseState,
    Option<Yield>,
) {
    let token = tokens[state.index as int];
    let labels = positional_labels(defs);
    match classify(token) {
        Token::Value(value) => if state.position < labels.len() {
            (
                ParseState { index: state.index + 1, position: state.position + 1, ..state },
                Some(
                    Ok(
                        StructuredItem::Positional {
                            label: labels[state.position as int],
                            value,
                        },
                    ),
                ),
            )
        } else {
            fail(state, ParseFailure::UnexpectedArgument { arg: value })
        },
        Token::Flag(flag) => act_on_flag(defs, tokens, state, flag),
        Token::GroupedShortFlags(letters) => match group_outcome(
            defs,
            state.found,
            token,
            letters,
            0,
        ) {
            Err(failure) => fail(state, failure),
            Ok(names) => if names.len() == 0 {
                fail(state, ParseFailure::UnknownOptionalArgument { arg: token })
            } else {
                (
                    ParseState {
                        index: state.index + 1,
                        found: state.found + names,
                        pending: long_names(names).drop_first(),
                        ..state
                    },
                    Some(Ok(StructuredItem::SwitchHit { name: names[0].long() })),
                )
            },
        },
    }
}

/// One step of a parse: the state behind it and what it yields. A finished
/// parse yields nothing. An interrupt among the tokens is all that a parse
/// yields. The switches of a group are yielded one at a step. At the end of
/// the tokens, or behind a pass-along flag, the parse is finalized. Otherwise
/// the step acts on the token at the cursor, once the values that belong to
/// the trail have gone there.
pub open spec fn step(defs: Registry, tokens: Seq<Seq<char>>, state: ParseState) -> (
    ParseState,
    Option<Yield>,
) {
    if state.finished {
        (state, None)
    } else if state.interrupt is Some {
        (state.finish(), Some(Ok(StructuredItem::InterruptHit { name: state.interrupt->0 })))
    } else if state.pending.len() > 0 {
        (
            ParseState { pending: state.pending.drop_first(), ..state },
            Some(Ok(StructuredItem::SwitchHit { name: state.pending[0] })),
        )
    } else if state.passed {
        (state.finish(), finalize(defs, state))
    } else {
        let ready = absorb(defs, tokens, state);
        if ready.index >= tokens.len() {
            (ready.finish(), finalize(defs, ready))
        } else {
            act(defs, tokens, ready)
        }
    }
}

/// How many tokens lie at or behind the cursor.
pub open spec fn tokens_left(tokens: Seq<Seq<char>>, state: ParseState) -> nat {
    if state.index >= tokens.len() {
        0
    } else {
        (tokens.len() - state.index) as nat
    }
}

/// Everything that a parse yields from a state on, in order: the yield of
/// each step up to the first step that yields nothing.
pub open spec fn stream(defs: Registry, tokens: Seq<Seq<char>>, state: ParseState) -> Seq<Yield>
    decreases
            (if state.finished {
                0nat
            } else {
                1nat
            }),
            tokens_left(tokens, state),
            state.pending.len(),
{
    let (next, yielded) = step(defs, tokens, state);
    match yielded {
        None => Seq::empty(),
        Some(y) => seq![y] + stream(defs, tokens, next),
    }
}

/// Everything that a parse of `tokens` against the registry yields, in
/// order. An error, if there is one, is the last element.
pub open spec fn parse_stream(defs: Registry, tokens: Seq<Seq<char>>) -> Seq<Yield> {
    stream(defs, tokens, initial_state(defs, tokens))
}

/// An outcome with some items put before its own: an outcome that is an
/// interrupt or an error stays what it is.
pub open spec fn behind(items: Seq<StructuredItem>, outcome: Outcome) -> Outcome {
    match outcome {
        Outcome::Structured(more) => Outcome::Structured(items + more),
        ended => ended,
    }
}

/// How a parse that yields `yields` ended: with the first error or the
/// first interrupt among them, or else with all of them as its items.
pub open spec fn outcome_of(yields: Seq<Yield>) -> Outcome
    decreases yields.len(),
{
    if yields.len() == 0 {
        Outcome::Structured(Seq::empty())
    } else {
        match yields[0] {
            Err(failure) => Outcome::Failed(failure),
            Ok(StructuredItem::InterruptHit { name }) => Outcome::Interrupted(name),
            Ok(item) => behind(seq![item], outcome_of(yields.drop_first())),
        }
    }
}

} // verus!
