//! Laws of the registry and of the parsing engine, each proved from the
//! definitions that the contracts of the library are stated over.
use crate::arg::{ArgumentDeclaration, ArgumentKind};
use crate::common::{FlagSpelling, OptionName};
use crate::engine::{
    absorb, finalize, first_interrupt, group_outcome, initial_state, interrupt_of, is_value,
    long_names, outcome_of, parse_stream, step, stream, value_run, ParseState,
};
use crate::items::{Outcome, ParseFailure, StructuredItem, Yield};
use crate::registry::{
    conflicts, declares, defined, lemma_refusal_is_conflict, positional_labels, refusal,
    registry_ok, resolve, trail_of, DefineFailure, Registry,
};
use crate::token::{classify, Token};
use vstd::prelude::*;

verus! {

/// Whether a state is one in which the scan goes on: the parse is not
/// finished, holds no interrupt, has no switch of a group left to yield, and
/// is not behind a pass-along flag.
pub open spec fn scanning(state: ParseState) -> bool {
    &&& !state.finished
    &&& state.interrupt is None
    &&& state.pending.len() == 0
    &&& !state.passed
}

/// What the end of the scan yields, as a sequence: one element or none.
pub open spec fn finale(defs: Registry, state: ParseState) -> Seq<Yield> {
    match finalize(defs, state) {
        Some(last) => seq![last],
        None => Seq::empty(),
    }
}

/// A state in which every position from `filled` on is still open and
/// nothing else has happened.
pub open spec fn filling(filled: nat) -> ParseState {
    ParseState {
        index: filled,
        position: filled,
        found: Seq::empty(),
        trail: Seq::empty(),
        pending: Seq::empty(),
        passed: false,
        interrupt: None,
        finished: false,
    }
}

/// The positional items that bind the labels from `from` on to the tokens at
/// the same places.
pub open spec fn positional_items(labels: Seq<Seq<char>>, tokens: Seq<Seq<char>>, from: int) -> Seq<
    Yield,
> {
    Seq::new(
        (labels.len() - from) as nat,
        |i: int| Ok(StructuredItem::Positional { label: labels[from + i], value: tokens[from + i] }),
    )
}

/// A finished parse yields nothing more.
pub proof fn lemma_finished_stream(defs: Registry, tokens: Seq<Seq<char>>, state: ParseState)
    requires
        state.finished,
    ensures
        stream(defs, tokens, state) == Seq::<Yield>::empty(),
{
}

/// A run of values reaches no further than the end of the tokens, and the
/// token behind it, if there is one, is not a value.
pub proof fn lemma_value_run(tokens: Seq<Seq<char>>, from: int)
    requires
        0 <= from <= tokens.len(),
    ensures
        from + value_run(tokens, from) <= tokens.len(),
        forall|i: int| from <= i < from + value_run(tokens, from) ==> is_value(#[trigger] tokens[i]),
        from + value_run(tokens, from) < tokens.len() ==> !is_value(
            tokens[from + value_run(tokens, from)],
        ),
    decreases tokens.len() - from,
{
    if from < tokens.len() && is_value(tokens[from]) {
        lemma_value_run(tokens, from + 1);
    }
}

/// Where every token from `from` on is a value, the run of values reaches
/// the end of the tokens.
pub proof fn lemma_value_run_all(tokens: Seq<Seq<char>>, from: int)
    requires
        0 <= from <= tokens.len(),
        forall|i: int| from <= i < tokens.len() ==> is_value(#[trigger] tokens[i]),
    ensures
        from + value_run(tokens, from) == tokens.len(),
    decreases tokens.len() - from,
{
    if from < tokens.len() {
        lemma_value_run_all(tokens, from + 1);
    }
}

/// Where no token is an interrupt, the tokens hold no first interrupt.
pub proof fn lemma_no_interrupt(defs: Registry, tokens: Seq<Seq<char>>, from: int)
    requires
        0 <= from <= tokens.len(),
        forall|i: int| from <= i < tokens.len() ==> interrupt_of(defs, #[trigger] tokens[i]) is None,
    ensures
        first_interrupt(defs, tokens, from) is None,
    decreases tokens.len() - from,
{
    if from < tokens.len() {
        lemma_no_interrupt(defs, tokens, from + 1);
    }
}

/// With values only, the positions are filled one by one, and what remains
/// goes to the trail.
proof fn lemma_values_fill_positions(defs: Registry, tokens: Seq<Seq<char>>, filled: nat)
    requires
        trail_of(defs) is Some,
        filled <= positional_labels(defs).len() <= tokens.len(),
        forall|i: int| 0 <= i < tokens.len() ==> is_value(#[trigger] tokens[i]),
    ensures
        stream(defs, tokens, filling(filled)) == positional_items(
            positional_labels(defs),
            tokens,
            filled as int,
        ) + finale(
            defs,
            ParseState {
                index: tokens.len(),
                position: positional_labels(defs).len(),
                trail: tokens.skip(positional_labels(defs).len() as int),
                ..filling(filled)
            },
        ),
    decreases positional_labels(defs).len() - filled,
{
    let labels = positional_labels(defs);
    let state = filling(filled);
    let end = ParseState {
        index: tokens.len(),
        position: labels.len(),
        trail: tokens.skip(labels.len() as int),
        ..state
    };
    if filled == labels.len() {
        lemma_value_run_all(tokens, filled as int);
        let ready = absorb(defs, tokens, state);
        assert(ready.trail =~= end.trail);
        assert(ready == end);
        lemma_finished_stream(defs, tokens, ready.finish());
        assert(positional_items(labels, tokens, filled as int) =~= Seq::<Yield>::empty());
        assert(stream(defs, tokens, state) =~= finale(defs, end));
        assert(Seq::<Yield>::empty() + finale(defs, end) =~= finale(defs, end));
    } else {
        let item: Yield = Ok(
            StructuredItem::Positional { label: labels[filled as int], value: tokens[filled as int] },
        );
        assert(is_value(tokens[filled as int]));
        assert(absorb(defs, tokens, state) == state);
        assert(step(defs, tokens, state) == (filling(filled + 1), Some(item)));
        lemma_values_fill_positions(defs, tokens, filled + 1);
        let later = ParseState {
            index: tokens.len(),
            position: labels.len(),
            trail: tokens.skip(labels.len() as int),
            ..filling(filled + 1)
        };
        assert(later == end);
        assert(positional_items(labels, tokens, filled as int) =~= seq![item] + positional_items(
            labels,
            tokens,
            (filled + 1) as int,
        ));
        assert(stream(defs, tokens, state) =~= positional_items(labels, tokens, filled as int)
            + finale(defs, end));
    }
}

/// Law of the required trail. Let the registry declare a trail of one or
/// more values, and let every token be a value. If there are exactly as many
/// tokens as positional arguments, the parse yields one positional item for
/// each and then fails for want of the trail. If there are more, it yields
/// the positional items and then the trail, which holds the tokens behind
/// them in order: one token more makes a trail of one element.
pub proof fn law_required_trail(defs: Registry, tokens: Seq<Seq<char>>, label: Seq<char>)
    requires
        trail_of(defs) == Some((label, true)),
        positional_labels(defs).len() <= tokens.len(),
        forall|i: int| 0 <= i < tokens.len() ==> is_value(#[trigger] tokens[i]),
    ensures
        tokens.len() == positional_labels(defs).len() ==> parse_stream(defs, tokens)
            == positional_items(positional_labels(defs), tokens, 0) + seq![
            Yield::Err(ParseFailure::MissingTrail { arg: label }),
        ],
        tokens.len() > positional_labels(defs).len() ==> parse_stream(defs, tokens)
            == positional_items(positional_labels(defs), tokens, 0) + seq![
            Yield::Ok(StructuredItem::Trail { values: tokens.skip(positional_labels(defs).len() as int) }),
        ],
        tokens.len() == positional_labels(defs).len() + 1 ==> tokens.skip(
            positional_labels(defs).len() as int,
        ) == seq![tokens[positional_labels(defs).len() as int]],
{
    let labels = positional_labels(defs);
    assert forall|i: int| 0 <= i < tokens.len() implies interrupt_of(defs, #[trigger] tokens[i])
        is None by {
        assert(is_value(tokens[i]));
    }
    lemma_no_interrupt(defs, tokens, 0);
    assert(initial_state(defs, tokens) == filling(0));
    lemma_values_fill_positions(defs, tokens, 0);
    if tokens.len() == labels.len() + 1 {
        assert(tokens.skip(labels.len() as int) =~= seq![tokens[labels.len() as int]]);
    }
    if tokens.len() == labels.len() {
        assert(tokens.skip(labels.len() as int).len() == 0);
    }
}

/// Law of the registry. In a registry without conflicts, which is what
/// adding declarations one by one keeps, no spelling is claimed by two
/// declarations, there is one trail at most, no positional declaration
/// stands behind the trail, and no two positional declarations share a
/// label.
pub proof fn law_registry_invariants(defs: Registry, i: int, j: int)
    requires
        registry_ok(defs),
        0 <= i < defs.len(),
        0 <= j < defs.len(),
    ensures
        forall|flag: FlagSpelling| declares(defs[i], flag) && declares(defs[j], flag) ==> i == j,
        defs[i].kind.is_trail() && defs[j].kind.is_trail() ==> i == j,
        defs[i].kind.is_trail() && defs[j].kind is Positional ==> j < i,
        defs[i].kind is Positional && defs[i].kind == defs[j].kind ==> i == j,
{
    assert forall|flag: FlagSpelling|
        declares(defs[i], flag) && declares(defs[j], flag) implies i == j by {
        let a = defs[i].kind.option_name()->0;
        let b = defs[j].kind.option_name()->0;
        assert(a.spelled_by(flag) && b.spelled_by(flag));
        assert(a.shares_spelling(b));
        assert(b.shares_spelling(a));
        if i < j {
            assert(conflicts(defs[i], defs[j]));
        } else if j < i {
            assert(conflicts(defs[j], defs[i]));
        }
    }
    if i < j {
        assert(!conflicts(defs[i], defs[j]));
    } else if j < i {
        assert(!conflicts(defs[j], defs[i]));
    }
}

/// Law of the shared spelling. Of two optional arguments that share a
/// spelling, short or long, a registry takes at most one: once the first is
/// added, the second is refused because a flag is already defined. The law
/// holds for either order, since sharing a spelling is symmetric.
pub proof fn law_shared_spelling_refused(
    defs: Registry,
    first: ArgumentDeclaration,
    second: ArgumentDeclaration,
)
    requires
        first.kind.option_name() is Some,
        second.kind.option_name() is Some,
        first.kind.option_name()->0.shares_spelling(second.kind.option_name()->0),
    ensures
        refusal(defs, first) is None ==> refusal(defined(defs, first), second) matches Some(
            DefineFailure::FlagAlreadyDefined(_),
        ),
        refusal(defs, second) is None ==> refusal(defined(defs, second), first) matches Some(
            DefineFailure::FlagAlreadyDefined(_),
        ),
{
    let a = first.kind.option_name()->0;
    let b = second.kind.option_name()->0;
    let flag = choose|flag: FlagSpelling| #[trigger] a.spelled_by(flag) && b.spelled_by(flag);
    assert(b.shares_spelling(a)) by {
        assert(b.spelled_by(flag) && a.spelled_by(flag));
    }
    if refusal(defs, first) is None {
        let next = defs.push(first);
        lemma_refusal_is_conflict(next, second);
        assert(next[next.len() - 1] == first);
    }
    if refusal(defs, second) is None {
        let next = defs.push(second);
        lemma_refusal_is_conflict(next, first);
        assert(next[next.len() - 1] == second);
    }
}

/// Law of the interrupt. Where some token is a single flag that denotes a
/// declared interrupt, the parse yields that interrupt and nothing else,
/// whatever the other tokens are. Of several interrupts it yields the first.
pub proof fn law_interrupt_overrides(defs: Registry, tokens: Seq<Seq<char>>, at: int)
    requires
        0 <= at < tokens.len(),
        interrupt_of(defs, tokens[at]) is Some,
    ensures
        first_interrupt(defs, tokens, 0) is Some,
        parse_stream(defs, tokens) == seq![
            Yield::Ok(StructuredItem::InterruptHit { name: first_interrupt(defs, tokens, 0)->0 }),
        ],
        outcome_of(parse_stream(defs, tokens)) == Outcome::Interrupted(
            first_interrupt(defs, tokens, 0)->0,
        ),
        (forall|i: int| 0 <= i < at ==> interrupt_of(defs, #[trigger] tokens[i]) is None)
            ==> first_interrupt(defs, tokens, 0) == interrupt_of(defs, tokens[at]),
{
    lemma_first_interrupt(defs, tokens, 0, at);
    let state = initial_state(defs, tokens);
    lemma_finished_stream(defs, tokens, state.finish());
    let hit: Yield = Ok(StructuredItem::InterruptHit { name: state.interrupt->0 });
    assert(stream(defs, tokens, state) =~= seq![hit]);
}

/// The first interrupt from `from` on exists where a token at or behind
/// `from` is an interrupt, and is that token's where none stands before it.
proof fn lemma_first_interrupt(defs: Registry, tokens: Seq<Seq<char>>, from: int, at: int)
    requires
        0 <= from <= at < tokens.len(),
        interrupt_of(defs, tokens[at]) is Some,
    ensures
        first_interrupt(defs, tokens, from) is Some,
        (forall|i: int| from <= i < at ==> interrupt_of(defs, #[trigger] tokens[i]) is None)
            ==> first_interrupt(defs, tokens, from) == interrupt_of(defs, tokens[at]),
    decreases at - from,
{
    if from < at {
        lemma_first_interrupt(defs, tokens, from + 1, at);
    }
}

/// Law of the pass-along flag. Where the scan stands at a single flag that
/// denotes a pass-along argument, the parse yields that argument with every
/// token behind the flag, unread and in order, and then only what the end of
/// the scan yields: no token behind the flag is read as a flag or a value.
pub proof fn law_pass_along_ends_scan(
    defs: Registry,
    tokens: Seq<Seq<char>>,
    state: ParseState,
    flag: FlagSpelling,
)
    requires
        scanning(state),
        state.index < tokens.len(),
        classify(tokens[state.index as int]) == Token::Flag(flag),
        resolve(defs, flag) matches Some(ArgumentKind::PassAlong(name)) && !state.found.contains(
            name,
        ),
    ensures
        stream(defs, tokens, state) == seq![
            Yield::Ok(
                StructuredItem::PassAlongHit {
                    name: resolve(defs, flag)->0.name(),
                    remaining: tokens.skip((state.index + 1) as int),
                },
            ),
        ] + finale(defs, state),
{
    let name = resolve(defs, flag)->0.option_name()->0;
    let hit: Yield = Ok(
        StructuredItem::PassAlongHit {
            name: name.long(),
            remaining: tokens.skip((state.index + 1) as int),
        },
    );
    let behind = ParseState { index: state.index + 1, passed: true, ..state };
    lemma_absorb_before_flag(defs, tokens, state);
    assert(step(defs, tokens, state) == (behind, Some(hit)));
    assert(finalize(defs, behind) == finalize(defs, state));
    lemma_finished_stream(defs, tokens, behind.finish());
    assert(stream(defs, tokens, behind) =~= finale(defs, state));
}

/// Where the token at the cursor is not a value, no value goes to the trail.
pub proof fn lemma_absorb_before_flag(defs: Registry, tokens: Seq<Seq<char>>, state: ParseState)
    requires
        state.index < tokens.len(),
        !is_value(tokens[state.index as int]),
    ensures
        absorb(defs, tokens, state) == state,
{
    let ready = absorb(defs, tokens, state);
    assert(ready.trail =~= state.trail);
}

/// One switch item for each of the names, in order.
pub open spec fn switch_hits(names: Seq<Seq<char>>) -> Seq<Yield> {
    Seq::new(names.len(), |i: int| Ok(StructuredItem::SwitchHit { name: names[i] }))
}

/// The switches of a group that are still to be yielded are yielded in
/// order before the scan goes on.
proof fn lemma_pending_switches(defs: Registry, tokens: Seq<Seq<char>>, state: ParseState)
    requires
        !state.finished,
        state.interrupt is None,
    ensures
        stream(defs, tokens, state) == switch_hits(state.pending) + stream(
            defs,
            tokens,
            ParseState { pending: Seq::empty(), ..state },
        ),
    decreases state.pending.len(),
{
    let idle = ParseState { pending: Seq::empty(), ..state };
    if state.pending.len() == 0 {
        assert(state.pending =~= Seq::<Seq<char>>::empty());
        assert(state == idle);
        assert(switch_hits(state.pending) + stream(defs, tokens, idle) =~= stream(
            defs,
            tokens,
            idle,
        ));
    } else {
        let next = ParseState { pending: state.pending.drop_first(), ..state };
        let hit: Yield = Ok(StructuredItem::SwitchHit { name: state.pending[0] });
        assert(step(defs, tokens, state) == (next, Some(hit)));
        lemma_pending_switches(defs, tokens, next);
        assert(switch_hits(state.pending) =~= seq![hit] + switch_hits(next.pending));
        assert(stream(defs, tokens, state) =~= switch_hits(state.pending) + stream(
            defs,
            tokens,
            idle,
        ));
    }
}

/// A group of letters, each of which denotes a switch, comes to the names of
/// those switches, provided that no name repeats and none was given before.
pub proof fn lemma_group_of_switches(
    defs: Registry,
    found: Seq<OptionName>,
    token: Seq<char>,
    letters: Seq<char>,
    names: Seq<OptionName>,
    from: int,
)
    requires
        0 <= from <= letters.len(),
        names.len() == letters.len(),
        forall|i: int|
            from <= i < letters.len() ==> resolve(defs, FlagSpelling::Short(letters[i])) == Some(
                ArgumentKind::Switch(#[trigger] names[i]),
            ),
        forall|i: int| from <= i < names.len() ==> !found.contains(#[trigger] names[i]),
        forall|i: int, j: int| from <= i < j < names.len() ==> names[i] != names[j],
    ensures
        group_outcome(defs, found, token, letters, from) == Ok::<Seq<OptionName>, ParseFailure>(
            names.skip(from),
        ),
    decreases letters.len() - from,
{
    if from < letters.len() {
        let name = names[from];
        let more = found.push(name);
        assert forall|i: int| from + 1 <= i < names.len() implies !more.contains(
            #[trigger] names[i],
        ) by {
            if more.contains(names[i]) {
                let k = choose|k: int| 0 <= k < more.len() && more[k] == names[i];
                if k < found.len() {
                    assert(found[k] == names[i]);
                }
            }
        }
        lemma_group_of_switches(defs, more, token, letters, names, from + 1);
        assert(seq![name] + names.skip(from + 1) =~= names.skip(from));
    } else {
        assert(names.skip(from) =~= Seq::<OptionName>::empty());
    }
}

/// Law of the grouped switches. Where the scan stands at a group of short
/// flags of which every letter denotes a declared switch, no switch twice and
/// none that was given before, the parse yields one switch item for each
/// letter, in the order of the letters, and goes on behind that one token
/// with every switch of the group marked as given.
pub proof fn law_grouped_switches(
    defs: Registry,
    tokens: Seq<Seq<char>>,
    state: ParseState,
    letters: Seq<char>,
    names: Seq<OptionName>,
)
    requires
        scanning(state),
        state.index < tokens.len(),
        classify(tokens[state.index as int]) == Token::GroupedShortFlags(letters),
        names.len() == letters.len() > 0,
        forall|i: int|
            0 <= i < letters.len() ==> resolve(defs, FlagSpelling::Short(letters[i])) == Some(
                ArgumentKind::Switch(#[trigger] names[i]),
            ),
        forall|i: int| 0 <= i < names.len() ==> !state.found.contains(#[trigger] names[i]),
        forall|i: int, j: int| 0 <= i < j < names.len() ==> names[i] != names[j],
    ensures
        stream(defs, tokens, state) == switch_hits(long_names(names)) + stream(
            defs,
            tokens,
            ParseState { index: state.index + 1, found: state.found + names, ..state },
        ),
{
    let token = tokens[state.index as int];
    lemma_group_of_switches(defs, state.found, token, letters, names, 0);
    assert(names.skip(0) =~= names);
    lemma_absorb_before_flag(defs, tokens, state);
    let behind = ParseState { index: state.index + 1, found: state.found + names, ..state };
    let next = ParseState { pending: long_names(names).drop_first(), ..behind };
    let hit: Yield = Ok(StructuredItem::SwitchHit { name: names[0].long() });
    assert(step(defs, tokens, state) == (next, Some(hit)));
    lemma_pending_switches(defs, tokens, next);
    assert(state.pending =~= Seq::<Seq<char>>::empty());
    assert(ParseState { pending: Seq::empty(), ..next } == behind);
    assert(switch_hits(long_names(names)) =~= seq![hit] + switch_hits(next.pending));
    assert(stream(defs, tokens, state) =~= switch_hits(long_names(names)) + stream(
        defs,
        tokens,
        behind,
    ));
}

/// A group of letters of which the letter `bad` denotes an argument that is
/// no switch, while those before it denote switches that are new, comes to
/// the error of that letter.
proof fn lemma_group_fails_at(
    defs: Registry,
    found: Seq<OptionName>,
    token: Seq<char>,
    letters: Seq<char>,
    names: Seq<OptionName>,
    from: int,
    bad: int,
)
    requires
        0 <= from <= bad < letters.len(),
        names.len() == bad,
        forall|i: int|
            from <= i < bad ==> resolve(defs, FlagSpelling::Short(letters[i])) == Some(
                ArgumentKind::Switch(#[trigger] names[i]),
            ),
        forall|i: int| from <= i < bad ==> !found.contains(#[trigger] names[i]),
        forall|i: int, j: int| from <= i < j < bad ==> names[i] != names[j],
        resolve(defs, FlagSpelling::Short(letters[bad])) matches Some(kind) && !(kind is Switch),
    ensures
        group_outcome(defs, found, token, letters, from) == Err::<Seq<OptionName>, ParseFailure>(
            ParseFailure::GroupedNonSwitch {
                arg: token,
                invalid: FlagSpelling::Short(letters[bad]).text(),
            },
        ),
    decreases bad - from,
{
    if from < bad {
        let name = names[from];
        let more = found.push(name);
        assert forall|i: int| from + 1 <= i < bad implies !more.contains(#[trigger] names[i]) by {
            if more.contains(names[i]) {
                let k = choose|k: int| 0 <= k < more.len() && more[k] == names[i];
                if k < found.len() {
                    assert(found[k] == names[i]);
                }
            }
        }
        lemma_group_fails_at(defs, more, token, letters, names, from + 1, bad);
    }
}

/// Law of the grouped option. Where the scan stands at a group of short
/// flags in which a letter denotes a declared argument that is no switch,
/// and every letter before it denotes a switch that is new, the parse fails
/// there: the error names the group and that letter, written as a short
/// flag, and no switch of the group is yielded.
pub proof fn law_grouped_non_switch(
    defs: Registry,
    tokens: Seq<Seq<char>>,
    state: ParseState,
    letters: Seq<char>,
    names: Seq<OptionName>,
    bad: int,
)
    requires
        scanning(state),
        state.index < tokens.len(),
        classify(tokens[state.index as int]) == Token::GroupedShortFlags(letters),
        0 <= bad < letters.len(),
        names.len() == bad,
        forall|i: int|
            0 <= i < bad ==> resolve(defs, FlagSpelling::Short(letters[i])) == Some(
                ArgumentKind::Switch(#[trigger] names[i]),
            ),
        forall|i: int| 0 <= i < bad ==> !state.found.contains(#[trigger] names[i]),
        forall|i: int, j: int| 0 <= i < j < bad ==> names[i] != names[j],
        resolve(defs, FlagSpelling::Short(letters[bad])) matches Some(kind) && !(kind is Switch),
    ensures
        stream(defs, tokens, state) == seq![
            Yield::Err(
                ParseFailure::GroupedNonSwitch {
                    arg: tokens[state.index as int],
                    invalid: FlagSpelling::Short(letters[bad]).text(),
                },
            ),
        ],
{
    let token = tokens[state.index as int];
    lemma_group_fails_at(defs, state.found, token, letters, names, 0, bad);
    lemma_absorb_before_flag(defs, tokens, state);
    let failure = ParseFailure::GroupedNonSwitch {
        arg: token,
        invalid: FlagSpelling::Short(letters[bad]).text(),
    };
    assert(step(defs, tokens, state) == (state.finish(), Some(Yield::Err(failure))));
    lemma_finished_stream(defs, tokens, state.finish());
    assert(stream(defs, tokens, state) =~= seq![Yield::Err(failure)]);
}

/// Law of the values of an option. Where the scan stands at a single flag
/// that denotes an option of zero or more values which was not given before,
/// the parse yields that option with the run of values behind the flag, as
/// they stand and in their order, and goes on behind the run. The run ends
/// before the first token that is not a value, whether or not that token is
/// a declared flag.
pub proof fn law_values_are_given_back(
    defs: Registry,
    tokens: Seq<Seq<char>>,
    state: ParseState,
    flag: FlagSpelling,
    name: OptionName,
)
    requires
        scanning(state),
        state.index < tokens.len(),
        classify(tokens[state.index as int]) == Token::Flag(flag),
        resolve(defs, flag) == Some(ArgumentKind::OptionZeroOrMore(name)),
        !state.found.contains(name),
    ensures
        ({
            let first = state.index + 1;
            let end = first + value_run(tokens, first as int);
            &&& end <= tokens.len()
            &&& forall|i: int| first <= i < end ==> is_value(#[trigger] tokens[i])
            &&& end < tokens.len() ==> !is_value(tokens[end as int])
            &&& stream(defs, tokens, state) == seq![
                Yield::Ok(
                    StructuredItem::OptionValues {
                        name: name.long(),
                        values: tokens.subrange(first as int, end as int),
                    },
                ),
            ] + stream(
                defs,
                tokens,
                ParseState { index: end, found: state.found.push(name), ..state },
            )
        }),
{
    let first = state.index + 1;
    lemma_value_run(tokens, first as int);
    lemma_absorb_before_flag(defs, tokens, state);
}

/// Law of the missing parameter. Where the scan stands at a single flag
/// that denotes an option of exactly one value which was not given before,
/// and the next token is no value or there is none, the parse fails there
/// with a missing parameter: the next token is never taken as the value.
pub proof fn law_single_needs_a_value(
    defs: Registry,
    tokens: Seq<Seq<char>>,
    state: ParseState,
    flag: FlagSpelling,
    name: OptionName,
)
    requires
        scanning(state),
        state.index < tokens.len(),
        classify(tokens[state.index as int]) == Token::Flag(flag),
        resolve(defs, flag) == Some(ArgumentKind::OptionSingle(name)),
        !state.found.contains(name),
        state.index + 1 < tokens.len() ==> !is_value(tokens[(state.index + 1) as int]),
    ensures
        stream(defs, tokens, state) == seq![
            Yield::Err(ParseFailure::MissingParameter { arg: tokens[state.index as int] }),
        ],
{
    lemma_absorb_before_flag(defs, tokens, state);
    let failure = ParseFailure::MissingParameter { arg: tokens[state.index as int] };
    assert(step(defs, tokens, state) == (state.finish(), Some(Yield::Err(failure))));
    lemma_finished_stream(defs, tokens, state.finish());
    assert(stream(defs, tokens, state) =~= seq![Yield::Err(failure)]);
}

/// Law of the error. An error is the last thing that a parse yields.
pub proof fn law_error_is_last(defs: Registry, tokens: Seq<Seq<char>>, state: ParseState, at: int)
    requires
        0 <= at < stream(defs, tokens, state).len(),
        stream(defs, tokens, state)[at] is Err,
    ensures
        at == stream(defs, tokens, state).len() - 1,
    decreases at,
{
    let (next, yielded) = step(defs, tokens, state);
    let rest = stream(defs, tokens, next);
    assert(stream(defs, tokens, state) == seq![yielded->0] + rest);
    if at == 0 {
        lemma_failure_finishes(defs, tokens, state);
        lemma_finished_stream(defs, tokens, next);
    } else {
        assert(stream(defs, tokens, state)[at] == rest[at - 1]);
        law_error_is_last(defs, tokens, next, at - 1);
    }
}

/// A step that yields an error leaves the parse finished.
pub proof fn lemma_failure_finishes(defs: Registry, tokens: Seq<Seq<char>>, state: ParseState)
    requires
        step(defs, tokens, state).1 matches Some(Err(_)),
    ensures
        step(defs, tokens, state).0.finished,
{
}

/// A step that yields the trail leaves the parse finished.
pub proof fn lemma_trail_finishes(defs: Registry, tokens: Seq<Seq<char>>, state: ParseState)
    requires
        step(defs, tokens, state).1 matches Some(Ok(StructuredItem::Trail { .. })),
    ensures
        step(defs, tokens, state).0.finished,
{
}

/// Law of the trail. The trail is the last thing that a parse yields: every
/// other item comes before it, whatever the order of the tokens.
pub proof fn law_trail_is_last(defs: Registry, tokens: Seq<Seq<char>>, state: ParseState, at: int)
    requires
        0 <= at < stream(defs, tokens, state).len(),
        stream(defs, tokens, state)[at] matches Ok(StructuredItem::Trail { .. }),
    ensures
        at == stream(defs, tokens, state).len() - 1,
    decreases at,
{
    let (next, yielded) = step(defs, tokens, state);
    let rest = stream(defs, tokens, next);
    assert(stream(defs, tokens, state) == seq![yielded->0] + rest);
    if at == 0 {
        lemma_trail_finishes(defs, tokens, state);
        lemma_finished_stream(defs, tokens, next);
    } else {
        assert(stream(defs, tokens, state)[at] == rest[at - 1]);
        law_trail_is_last(defs, tokens, next, at - 1);
    }
}

/// Law of the repeated parse. Two parses of the same tokens against the
/// same registry yield the same items and the same error: what a parse
/// yields is a function of the registry and the tokens alone.
pub proof fn law_parse_is_repeatable(
    defs: Registry,
    tokens: Seq<Seq<char>>,
    first: Seq<Yield>,
    second: Seq<Yield>,
)
    requires
        first == parse_stream(defs, tokens),
        second == parse_stream(defs, tokens),
    ensures
        first == second,
{
}

} // verus!
