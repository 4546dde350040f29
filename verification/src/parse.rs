//! A parse in progress: the iterator-like value that structures the tokens of
//! one command line, one argument at a step.
use crate::arg::{optional_text, ArgType};
use crate::common::{FlagName, OptName, OptionName};
use crate::engine::{
    absorb, act_on_flag, behind, finalize, find_values, first_interrupt, group_outcome,
    initial_state, is_value, long_names, outcome_of, step, stream, tokens_left, value_run, Arity,
    ParseState,
};
use crate::items::{
    items_view, yield_view, ParseError, ParseFailure, ParseOutcome, StructuredArgument,
    StructuredItem, Yield,
};
use crate::parser::{Parser, ReqType};
use crate::registry::{positional_labels, Registry};
use crate::text::texts;
use crate::token::{argument_type, GivenArgument};
use vstd::prelude::*;
use vstd::slice::{slice_subrange, slice_to_vec};

verus! {

/// The canonical names that a list of option names stands for.
pub open spec fn option_names(names: Seq<OptName<'_>>) -> Seq<OptionName> {
    names.map_values(|name: OptName<'_>| name@)
}

/// Tells whether a token is a bare value.
fn is_value_token(arg: &str) -> (bare: bool)
    ensures
        bare == is_value(arg@),
{
    match argument_type(arg) {
        GivenArgument::Value(_) => true,
        _ => false,
    }
}

/// Counts the values in a row that the arguments hold from `from` on.
fn count_values(args: &[&str], from: usize) -> (count: usize)
    requires
        from <= args@.len(),
    ensures
        count == value_run(texts(args@), from as int),
        from + count <= args@.len(),
{
    let len: usize = args.len();
    let mut count: usize = 0;
    while from + count < len && is_value_token(args[from + count])
        invariant
            len == args@.len(),
            from + count <= len,
            value_run(texts(args@), from as int) == count + value_run(
                texts(args@),
                from + count,
            ),
        decreases args@.len() - count,
    {
        assert(texts(args@)[from + count] == args@[from + count]@);
        count += 1;
    }
    proof {
        if from + count < args@.len() {
            assert(texts(args@)[from + count] == args@[from + count]@);
        }
    }
    count
}

/// Tells whether a name is among the names that were given.
fn name_given(given: &Vec<OptName<'_>>, name: &OptName<'_>) -> (held: bool)
    ensures
        held == option_names(given@).contains(name@),
{
    let mut i: usize = 0;
    while i < given.len()
        invariant
            i <= given@.len(),
            forall|k: int| 0 <= k < i ==> option_names(given@)[k] != name@,
        decreases given@.len() - i,
    {
        if given[i].same(name) {
            assert(option_names(given@)[i as int] == name@);
            return true;
        }
        i += 1;
    }
    false
}

/// An iterator over structured arguments during a parse.
#[derive(Debug)]
pub struct Parse<'a> {
    index: usize,
    position: usize,
    parser: &'a Parser<'a>,
    args: &'a [&'a str],
    found_flags: Vec<OptName<'a>>,
    leftover_short_flags: Vec<&'a str>,
    finished: bool,
    trail: Vec<&'a str>,
    passalong: bool,
    interrupt: Option<&'a str>,
}

impl<'a> View for Parse<'a> {
    type V = ParseState;

    closed spec fn view(&self) -> ParseState {
        ParseState {
            index: self.index as nat,
            position: self.position as nat,
            found: option_names(self.found_flags@),
            trail: texts(self.trail@),
            pending: texts(self.leftover_short_flags@),
            passed: self.passalong,
            interrupt: optional_text(self.interrupt),
            finished: self.finished,
        }
    }
}

impl<'a> Parse<'a> {
    /// The registry that this parse reads.
    pub closed spec fn registry(&self) -> Registry {
        self.parser@
    }

    /// The tokens that this parse structures.
    pub closed spec fn tokens(&self) -> Seq<Seq<char>> {
        texts(self.args@)
    }

    /// The invariant of a parse: its parser is well formed, and its cursor
    /// and its count of positions are within bounds.
    pub closed spec fn wf(&self) -> bool {
        &&& self.parser.wf()
        &&& self.index <= self.args@.len()
        &&& self.position <= positional_labels(self.parser@).len()
    }

    /// Returns the remaining unparsed arguments for this parse run.
    pub fn remaining_args(&self) -> (rest: &'a [&'a str])
        requires
            self.wf(),
        ensures
            texts(rest@) == self.tokens().skip(self@.index as int),
    {
        let rest = slice_subrange(self.args, self.index, self.args.len());
        assert(texts(rest@) =~= self.tokens().skip(self@.index as int));
        rest
    }

    /// What the end of the scan yields: a missing positional argument or a
    /// missing trail as an error, else the trail, if one is declared.
    fn check_trail(&self) -> (last: Option<Result<StructuredArgument<'a>, ParseError<'a>>>)
        requires
            self.wf(),
        ensures
            yield_view(last) == finalize(self.registry(), self@),
    {
        let positional = self.parser.positional_names();
        // A positional argument wasn't given
        if self.position < positional.len() {
            let arg = positional[self.position];
            assert(texts(positional@)[self.position as int] == arg@);
            return Some(Err(ParseError::MissingPositionalArgument { arg: arg }));
        }
        match self.parser.trail_kind() {
            // Validate that at least one trail argument is present
            Some((arg, ReqType::OnePlus)) => {
                if self.trail.len() < 1 {
                    assert(texts(self.trail@).len() == 0);
                    return Some(Err(ParseError::MissingTrail { arg: arg }));
                }
                assert(texts(self.trail@).len() > 0);
            },
            Some((_, ReqType::ZeroPlus)) => {},
            // No trail expected and none found: just return
            None => {
                return None;
            },
        }
        // Return the trail
        Some(Ok(StructuredArgument::Trail { values: slice_to_vec(self.trail.as_slice()) }))
    }

    /// Checks a group of short flags: every letter must denote a switch that
    /// was not given before. Returns the names of the switches, in order.
    fn validate_grouped_short(&self, letters: &Vec<char>, arg: &'a str) -> (checked: Result<
        Vec<OptName<'a>>,
        ParseError<'a>,
    >)
        ensures
            match group_outcome(self.registry(), self@.found, arg@, letters@, 0) {
                Ok(names) => checked is Ok && option_names(checked->Ok_0@) == names,
                Err(failure) => checked is Err && checked->Err_0@ == failure,
            },
    {
        let ghost defs = self.registry();
        let ghost found = self@.found;
        let mut names: Vec<OptName<'a>> = Vec::new();
        let mut k: usize = 0;
        assert(found + option_names(names@) =~= found);
        assert(forall|rest: Seq<OptionName>| option_names(names@) + rest =~= rest);
        while k < letters.len()
            invariant
                k <= letters@.len(),
                defs == self.registry(),
                found == self@.found,
                group_outcome(defs, found, arg@, letters@, 0) == prepend(
                    option_names(names@),
                    group_outcome(defs, found + option_names(names@), arg@, letters@, k as int),
                ),
            decreases letters@.len() - k,
        {
            let letter = letters[k];
            let flag = FlagName::Short(letter);
            let ghost so_far = option_names(names@);
            match self.parser.lookup(&flag) {
                None => {
                    return Err(ParseError::UnknownOptionalArgument { arg: arg });
                },
                Some(ArgType::Switch(name)) => {
                    let given = name_given(&self.found_flags, &name) || name_given(&names, &name);
                    proof {
                        let all = found + so_far;
                        if found.contains(name@) {
                            let i = choose|i: int| 0 <= i < found.len() && found[i] == name@;
                            assert(all[i] == name@);
                        }
                        if so_far.contains(name@) {
                            let i = choose|i: int| 0 <= i < so_far.len() && so_far[i] == name@;
                            assert(all[found.len() + i] == name@);
                        }
                        if all.contains(name@) {
                            let i = choose|i: int| 0 <= i < all.len() && all[i] == name@;
                            if i < found.len() {
                                assert(found[i] == name@);
                            } else {
                                assert(so_far[i - found.len()] == name@);
                            }
                        }
                    }
                    if given {
                        return Err(ParseError::DuplicateArgument { arg: arg });
                    }
                    names.push(name);
                    proof {
                        let next = option_names(names@);
                        assert(next =~= so_far.push(name@));
                        assert(found + next =~= (found + so_far).push(name@));
                        assert(forall|rest: Seq<OptionName>|
                            so_far + (seq![name@] + rest) =~= next + rest);
                    }
                },
                Some(_) => {
                    return Err(
                        ParseError::GroupedNonSwitch { arg: arg, invalid: flag.to_string() },
                    );
                },
            }
            k += 1;
        }
        assert(option_names(names@) + Seq::<OptionName>::empty() =~= option_names(names@));
        Ok(names)
    }

    /// Attempts to find enough parameters for the given option type.
    fn find_parameters(&mut self, arg: &'a str, opt_type: OptType, opt_name: OptName<'a>) -> (found:
        Result<StructuredArgument<'a>, ParseError<'a>>)
        requires
            old(self).wf(),
            old(self)@.index < old(self).tokens().len(),
            arg@ == old(self).tokens()[old(self)@.index as int],
        ensures
            final(self).wf(),
            final(self).registry() == old(self).registry(),
            final(self).tokens() == old(self).tokens(),
            (final(self)@, yield_view(Some(found))) == find_values(
                old(self).tokens(),
                old(self)@,
                opt_type@,
                opt_name@,
            ),
    {
        let ghost tokens = self.tokens();
        let len: usize = self.args.len();
        let first: usize = self.index + 1;
        let count: usize = match opt_type {
            OptType::Single => {
                if first < len && is_value_token(self.args[first]) {
                    let value = self.args[first];
                    assert(tokens[first as int] == value@);
                    self.index = first + 1;
                    self.found_flags.push(opt_name);
                    assert(option_names(self.found_flags@) =~= old(self)@.found.push(opt_name@));
                    return Ok(
                        StructuredArgument::Single { name: opt_name.name(), parameter: value },
                    );
                }
                proof {
                    if first < len {
                        assert(tokens[first as int] == self.args@[first as int]@);
                    }
                }
                self.finished = true;
                return Err(ParseError::MissingParameter { arg: arg });
            },
            OptType::ZeroPlus => count_values(self.args, first),
            OptType::OnePlus => {
                let count = count_values(self.args, first);
                if count == 0 {
                    self.finished = true;
                    return Err(ParseError::MissingParameter { arg: arg });
                }
                count
            },
        };
        let params = slice_subrange(self.args, first, first + count);
        assert(texts(params@) =~= tokens.subrange(first as int, first + count));
        self.index = first + count;
        self.found_flags.push(opt_name);
        assert(option_names(self.found_flags@) =~= old(self)@.found.push(opt_name@));
        Ok(StructuredArgument::Multiple { name: opt_name.name(), parameters: params })
    }

    /// Parses the given flag, which stands at the cursor.
    fn parse_flag(&mut self, flag: FlagName<'a>, arg: &'a str) -> (parsed: Result<
        StructuredArgument<'a>,
        ParseError<'a>,
    >)
        requires
            old(self).wf(),
            old(self)@.index < old(self).tokens().len(),
            arg@ == old(self).tokens()[old(self)@.index as int],
        ensures
            final(self).wf(),
            final(self).registry() == old(self).registry(),
            final(self).tokens() == old(self).tokens(),
            (final(self)@, yield_view(Some(parsed))) == act_on_flag(
                old(self).registry(),
                old(self).tokens(),
                old(self)@,
                flag@,
            ),
    {
        let len: usize = self.args.len();
        let kind = match self.parser.lookup(&flag) {
            Some(kind) => kind,
            None => {
                self.finished = true;
                return Err(ParseError::UnknownOptionalArgument { arg: arg });
            },
        };
        let (opt_name, opt_type) = match kind {
            ArgType::OptSingle(name) => (name, Some(OptType::Single)),
            ArgType::OptZeroPlus(name) => (name, Some(OptType::ZeroPlus)),
            ArgType::OptOnePlus(name) => (name, Some(OptType::OnePlus)),
            ArgType::Switch(name) => (name, None),
            ArgType::Interrupt(name) => (name, None),
            ArgType::PassAlong(name) => (name, None),
            _ => {
                self.finished = true;
                return Err(ParseError::UnknownOptionalArgument { arg: arg });
            },
        };
        if name_given(&self.found_flags, &opt_name) {
            self.finished = true;
            return Err(ParseError::DuplicateArgument { arg: arg });
        }
        if let Some(opt_type) = opt_type {
            // The argument takes parameters
            return self.find_parameters(arg, opt_type, opt_name);
        }
        match kind {
            ArgType::Switch(_) => {
                self.index = self.index + 1;
                self.found_flags.push(opt_name);
                assert(option_names(self.found_flags@) =~= old(self)@.found.push(opt_name@));
                Ok(StructuredArgument::Switch { name: opt_name.name() })
            },
            ArgType::Interrupt(_) => {
                self.finished = true;
                Ok(StructuredArgument::Interrupt { name: opt_name.name() })
            },
            _ => {
                self.index = self.index + 1;
                self.passalong = true;
                let rest = slice_subrange(self.args, self.index, len);
                assert(texts(rest@) =~= old(self).tokens().skip(self.index as int));
                Ok(StructuredArgument::PassAlong { name: opt_name.name(), args: rest })
            },
        }
    }

    /// Runs the parse to its end and returns everything it yields, in
    /// order. An error, if there is one, is the last element.
    pub fn collect(self) -> (all: Vec<Result<StructuredArgument<'a>, ParseError<'a>>>)
        requires
            self.wf(),
        ensures
            yields(all@) == stream(self.registry(), self.tokens(), self@),
    {
        let ghost defs = self.registry();
        let ghost tokens = self.tokens();
        let ghost whole = stream(defs, tokens, self@);
        let mut parse = self;
        let mut all: Vec<Result<StructuredArgument<'a>, ParseError<'a>>> = Vec::new();
        assert(yields(all@) + whole =~= whole);
        loop
            invariant
                parse.wf(),
                parse.registry() == defs,
                parse.tokens() == tokens,
                whole == stream(self.registry(), self.tokens(), self@),
                yields(all@) + stream(defs, tokens, parse@) == whole,
            decreases
                    (if parse@.finished {
                        0nat
                    } else {
                        1nat
                    }),
                    tokens_left(tokens, parse@),
                    parse@.pending.len(),
        {
            let ghost before = yields(all@);
            let ghost state = parse@;
            match parse.next() {
                None => {
                    assert(stream(defs, tokens, state) == Seq::<Yield>::empty());
                    assert(before + Seq::<Yield>::empty() =~= before);
                    return all;
                },
                Some(yielded) => {
                    all.push(yielded);
                    let ghost y = yield_view(Some(yielded))->0;
                    assert(yields(all@) =~= before.push(y));
                    assert(before.push(y) + stream(defs, tokens, parse@) =~= before + (seq![y]
                        + stream(defs, tokens, parse@)));
                },
            }
        }
    }

    /// Runs the parse to its end and tells how it ended: with an error, with
    /// an interrupt, or else with every argument that it structured.
    pub fn outcome(self) -> (ended: ParseOutcome<'a>)
        requires
            self.wf(),
        ensures
            ended@ == outcome_of(stream(self.registry(), self.tokens(), self@)),
    {
        let ghost defs = self.registry();
        let ghost tokens = self.tokens();
        let ghost whole = outcome_of(stream(defs, tokens, self@));
        let mut parse = self;
        let mut items: Vec<StructuredArgument<'a>> = Vec::new();
        assert(forall|rest: Seq<StructuredItem>| items_view(items@) + rest =~= rest);
        loop
            invariant
                parse.wf(),
                parse.registry() == defs,
                parse.tokens() == tokens,
                whole == outcome_of(stream(self.registry(), self.tokens(), self@)),
                whole == behind(items_view(items@), outcome_of(stream(defs, tokens, parse@))),
            decreases
                    (if parse@.finished {
                        0nat
                    } else {
                        1nat
                    }),
                    tokens_left(tokens, parse@),
                    parse@.pending.len(),
        {
            let ghost so_far = items_view(items@);
            let ghost rest = stream(defs, tokens, parse@);
            let yielded = parse.next();
            proof {
                if yielded is Some {
                    let y = yield_view(yielded)->0;
                    let later = stream(defs, tokens, parse@);
                    assert(rest == seq![y] + later);
                    assert(rest.drop_first() =~= later);
                } else {
                    assert(rest == Seq::<Yield>::empty());
                    assert(so_far + Seq::<StructuredItem>::empty() =~= so_far);
                }
            }
            match yielded {
                None => {
                    return ParseOutcome::Structured(items);
                },
                Some(Err(error)) => {
                    return ParseOutcome::Failed(error);
                },
                Some(Ok(StructuredArgument::Interrupt { name })) => {
                    return ParseOutcome::Interrupted(name);
                },
                Some(Ok(item)) => {
                    items.push(item);
                    assert(items_view(items@) =~= so_far.push(item@));
                    assert(forall|more: Seq<StructuredItem>|
                        so_far + (seq![item@] + more) =~= items_view(items@) + more);
                },
            }
        }
    }

    /// Moves the run of values at the cursor to the trail, where every
    /// position is filled and a trail is declared.
    fn gather_trail(&mut self)
        requires
            old(self).wf(),
        ensures
            final(self).wf(),
            final(self).registry() == old(self).registry(),
            final(self).tokens() == old(self).tokens(),
            final(self)@ == absorb(old(self).registry(), old(self).tokens(), old(self)@),
    {
        if self.position >= self.parser.positional_names().len()
            && self.parser.trail_kind().is_some() {
            let count = count_values(self.args, self.index);
            let mut taken: usize = 0;
            while taken < count
                invariant
                    taken <= count,
                    self.index + count <= self.args@.len(),
                    self.index == old(self).index,
                    self.position == old(self).position,
                    self.parser == old(self).parser,
                    self.args == old(self).args,
                    self.found_flags == old(self).found_flags,
                    self.leftover_short_flags == old(self).leftover_short_flags,
                    self.finished == old(self).finished,
                    self.passalong == old(self).passalong,
                    self.interrupt == old(self).interrupt,
                    texts(self.trail@) == texts(old(self).trail@) + texts(self.args@).subrange(
                        self.index as int,
                        self.index + taken,
                    ),
                decreases count - taken,
            {
                let value = self.args[self.index + taken];
                let ghost before = texts(self.trail@);
                self.trail.push(value);
                assert(texts(self.trail@) =~= before.push(value@));
                assert(texts(self.args@).subrange(self.index as int, self.index + taken + 1)
                    =~= texts(self.args@).subrange(self.index as int, self.index + taken).push(
                    value@,
                ));
                taken += 1;
            }
            self.index = self.index + count;
        }
    }

    /// Yields the next structured argument, the error that ends the parse,
    /// or nothing once the parse is over.
    pub fn next(&mut self) -> (yielded: Option<Result<StructuredArgument<'a>, ParseError<'a>>>)
        requires
            old(self).wf(),
        ensures
            final(self).wf(),
            final(self).registry() == old(self).registry(),
            final(self).tokens() == old(self).tokens(),
            (final(self)@, yield_view(yielded)) == step(
                old(self).registry(),
                old(self).tokens(),
                old(self)@,
            ),
    {
        // Stop if the parse is finished
        if self.finished {
            return None;
        }
        // An interrupt among the arguments is all that the parse yields
        if let Some(name) = self.interrupt {
            self.finished = true;
            return Some(Ok(StructuredArgument::Interrupt { name: name }));
        }
        // Check for leftover short flag from grouped short switches eg. '-abc'
        if self.leftover_short_flags.len() > 0 {
            let ghost before = texts(self.leftover_short_flags@);
            let name = self.leftover_short_flags.remove(0);
            assert(texts(self.leftover_short_flags@) =~= before.drop_first());
            assert(before[0] == name@);
            return Some(Ok(StructuredArgument::Switch { name: name }));
        }
        // A passalong argument has ended the scan
        if self.passalong {
            let last = self.check_trail();
            self.finished = true;
            return last;
        }
        self.gather_trail();
        if self.index >= self.args.len() {
            let last = self.check_trail();
            self.finished = true;
            return last;
        }
        let ghost ready = self@;
        let ghost tokens = self.tokens();
        let ghost parser = self.parser;
        let ghost args = self.args;
        let arg = self.args[self.index];
        assert(tokens[self.index as int] == arg@);
        match argument_type(arg) {
            GivenArgument::Value(value) => {
                let positional = self.parser.positional_names();
                if self.position < positional.len() {
                    let name = positional[self.position];
                    assert(texts(positional@)[self.position as int] == name@);
                    self.index = self.index + 1;
                    self.position = self.position + 1;
                    Some(Ok(StructuredArgument::Positional { name: name, value: value }))
                } else {
                    self.finished = true;
                    Some(Err(ParseError::UnexpectedArgument { arg: value }))
                }
            },
            GivenArgument::Flag(flag) => Some(self.parse_flag(flag, arg)),
            GivenArgument::ShortFlags(letters) => {
                match self.validate_grouped_short(&letters, arg) {
                    Err(error) => {
                        self.finished = true;
                        Some(Err(error))
                    },
                    Ok(names) => {
                        if names.len() == 0 {
                            self.finished = true;
                            return Some(Err(ParseError::UnknownOptionalArgument { arg: arg }));
                        }
                        let first = names[0].name();
                        let ghost group = option_names(names@);
                        assert(group[0] == names@[0]@);
                        self.index = self.index + 1;
                        let mut k: usize = 0;
                        while k < names.len()
                            invariant
                                k <= names@.len(),
                                group == option_names(names@),
                                self.index == ready.index + 1,
                                self.position == ready.position,
                                self.parser == parser,
                                self.args == args,
                                !self.finished,
                                !self.passalong,
                                self.interrupt is None,
                                texts(self.trail@) == ready.trail,
                                option_names(self.found_flags@) == ready.found + group.subrange(
                                    0,
                                    k as int,
                                ),
                                k == 0 ==> texts(self.leftover_short_flags@)
                                    == Seq::<Seq<char>>::empty(),
                                k > 0 ==> texts(self.leftover_short_flags@) == long_names(
                                    group,
                                ).subrange(1, k as int),
                            decreases names@.len() - k,
                        {
                            let name = names[k];
                            let ghost found = option_names(self.found_flags@);
                            let ghost pending = texts(self.leftover_short_flags@);
                            assert(group[k as int] == name@);
                            self.found_flags.push(name);
                            assert(option_names(self.found_flags@) =~= found.push(name@));
                            assert(ready.found + group.subrange(0, k + 1) =~= (ready.found
                                + group.subrange(0, k as int)).push(name@));
                            if k > 0 {
                                self.leftover_short_flags.push(name.name());
                                assert(texts(self.leftover_short_flags@) =~= pending.push(
                                    name@.long(),
                                ));
                                assert(long_names(group).subrange(1, k + 1) =~= long_names(
                                    group,
                                ).subrange(1, k as int).push(name@.long()));
                            } else {
                                assert(long_names(group).subrange(1, 1) =~= Seq::<
                                    Seq<char>,
                                >::empty());
                            }
                            k += 1;
                        }
                        assert(group.subrange(0, k as int) =~= group);
                        assert(long_names(group).subrange(1, k as int) =~= long_names(
                            group,
                        ).drop_first());
                        Some(Ok(StructuredArgument::Switch { name: first }))
                    },
                }
            },
        }
    }
}

impl<'a> Parser<'a> {
    /// Finds the first argument that is a single flag which denotes an
    /// interrupt, and returns the long name of that interrupt.
    fn find_interrupt(&self, args: &[&str]) -> (name: Option<&'a str>)
        ensures
            optional_text(name) == first_interrupt(self@, texts(args@), 0),
    {
        let mut i: usize = 0;
        while i < args.len()
            invariant
                i <= args@.len(),
                first_interrupt(self@, texts(args@), 0) == first_interrupt(
                    self@,
                    texts(args@),
                    i as int,
                ),
            decreases args@.len() - i,
        {
            assert(texts(args@)[i as int] == args@[i as int]@);
            if let GivenArgument::Flag(flag) = argument_type(args[i]) {
                if let Some(ArgType::Interrupt(name)) = self.lookup(&flag) {
                    return Some(name.name());
                }
            }
            i += 1;
        }
        None
    }

    /// Starts parsing the given arguments with this parser. The arguments
    /// are those of the command line without the name of the program. An
    /// interrupt among them, wherever it stands, is all that the parse will
    /// yield.
    pub fn parse(&'a self, args: &'a [&'a str]) -> (parse: Parse<'a>)
        requires
            self.wf(),
        ensures
            parse.wf(),
            parse.registry() == self@,
            parse.tokens() == texts(args@),
            parse@ == initial_state(self@, texts(args@)),
    {
        let parse = Parse {
            index: 0,
            position: 0,
            parser: self,
            args: args,
            found_flags: Vec::new(),
            leftover_short_flags: Vec::new(),
            finished: false,
            trail: Vec::new(),
            passalong: false,
            interrupt: self.find_interrupt(args),
        };
        assert(parse@.found =~= Seq::<OptionName>::empty());
        assert(parse@.trail =~= Seq::<Seq<char>>::empty());
        assert(parse@.pending =~= Seq::<Seq<char>>::empty());
        parse
    }
}

/// What a list of step results stands for, as mathematical values.
pub open spec fn yields(results: Seq<Result<StructuredArgument<'_>, ParseError<'_>>>) -> Seq<
    Yield,
> {
    results.map_values(
        |result: Result<StructuredArgument<'_>, ParseError<'_>>|
            match result {
                Ok(item) => Ok(item@),
                Err(error) => Err(error@),
            },
    )
}

/// What a group outcome comes to behind the names that were checked before it.
pub open spec fn prepend(
    names: Seq<OptionName>,
    outcome: Result<Seq<OptionName>, ParseFailure>,
) -> Result<Seq<OptionName>, ParseFailure> {
    match outcome {
        Ok(rest) => Ok(names + rest),
        Err(failure) => Err(failure),
    }
}

/// The possible types of an optional argument.
#[derive(Debug, Clone, Copy, PartialEq, Eq)]
pub enum OptType {
    Single,
    ZeroPlus,
    OnePlus,
}

impl View for OptType {
    type V = Arity;

    open spec fn view(&self) -> Arity {
        match *self {
            OptType::Single => Arity::Single,
            OptType::ZeroPlus => Arity::ZeroOrMore,
            OptType::OnePlus => Arity::OneOrMore,
        }
    }
}

} // verus!
