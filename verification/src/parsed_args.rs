//! The parsed arguments of a successful parse, gathered in one value that is
//! queried by name.
use crate::arg::optional_text;
use crate::common::{FlagName, FlagSpelling, OptName, OptionName};
use crate::text::{str_eq, texts};
use vstd::prelude::*;
use vstd::slice::slice_to_vec;
use vstd::string::*;

verus! {

/// The value that the first pair with the key `key` holds, from `from` on.
pub open spec fn lookup_from<K, V>(pairs: Seq<(K, V)>, key: K, from: int) -> Option<V>
    decreases pairs.len() - from,
{
    if from < 0 || from >= pairs.len() {
        None
    } else if pairs[from].0 == key {
        Some(pairs[from].1)
    } else {
        lookup_from(pairs, key, from + 1)
    }
}

/// The value that the first pair with the key `key` holds.
pub open spec fn lookup<K, V>(pairs: Seq<(K, V)>, key: K) -> Option<V> {
    lookup_from(pairs, key, 0)
}

/// The parsed arguments as a mathematical value: lists of names with what
/// was given for them, in which the first entry of a name counts.
pub struct ParsedValues {
    /// The value of each positional argument, by its label.
    pub positional: Seq<(Seq<char>, Seq<char>)>,
    /// The trail, where one is declared.
    pub trail: Option<Seq<Seq<char>>>,
    /// The value of each single-parameter option, if it was given.
    pub singles: Seq<(OptionName, Option<Seq<char>>)>,
    /// The values of each multi-parameter option, if it was given.
    pub multiples: Seq<(OptionName, Option<Seq<Seq<char>>>)>,
    /// Whether each switch was given.
    pub switches: Seq<(OptionName, bool)>,
    /// The option that each spelling denotes.
    pub aliases: Seq<(FlagSpelling, OptionName)>,
}

impl ParsedValues {
    /// The option that the long name `name` denotes: the one that the
    /// aliases give it, or else the option with that long name alone.
    pub open spec fn option_named(self, name: Seq<char>) -> OptionName {
        match lookup(self.aliases, FlagSpelling::Long(name)) {
            Some(option) => option,
            None => OptionName::Long(name),
        }
    }
}

/// Why a query of the parsed arguments failed.
pub enum AccessFailure {
    /// No positional argument of this name was declared.
    NoPositional(Seq<char>),
    /// No switch of this name was declared.
    NoSwitch(OptionName),
    /// No single-parameter option of this name was declared.
    NoSingle(OptionName),
    /// No multi-parameter option of this name was declared.
    NoMultiple(OptionName),
}

impl AccessFailure {
    /// The failure in words.
    pub open spec fn message(self) -> Seq<char> {
        match self {
            AccessFailure::NoPositional(name) => "No positional argument named '"@ + name
                + "' declared"@,
            AccessFailure::NoSwitch(name) => "No switch found with the name '"@ + name.long()
                + "'"@,
            AccessFailure::NoSingle(name) =>
                "No single-parameter argument found with the name '"@ + name.long() + "'"@,
            AccessFailure::NoMultiple(name) =>
                "No multi-parameter argument found with the name '"@ + name.long() + "'"@,
        }
    }
}

/// Why a query of the parsed arguments failed: the name that was asked for
/// was never declared as an argument of the kind that was asked for.
#[derive(Debug, Clone, Copy, PartialEq, Eq)]
pub enum AccessError<'a> {
    /// No positional argument of this name was declared.
    NoPositional(&'a str),
    /// No switch of this name was declared.
    NoSwitch(OptName<'a>),
    /// No single-parameter option of this name was declared.
    NoSingle(OptName<'a>),
    /// No multi-parameter option of this name was declared.
    NoMultiple(OptName<'a>),
}

impl<'a> View for AccessError<'a> {
    type V = AccessFailure;

    open spec fn view(&self) -> AccessFailure {
        match *self {
            AccessError::NoPositional(name) => AccessFailure::NoPositional(name@),
            AccessError::NoSwitch(name) => AccessFailure::NoSwitch(name@),
            AccessError::NoSingle(name) => AccessFailure::NoSingle(name@),
            AccessError::NoMultiple(name) => AccessFailure::NoMultiple(name@),
        }
    }
}

impl<'a> AccessError<'a> {
    /// Says in words which name was not declared.
    pub fn message(&self) -> (text: String)
        ensures
            text@ == self@.message(),
    {
        match *self {
            AccessError::NoPositional(name) => {
                let mut text = String::from_str("No positional argument named '");
                text.append(name);
                text.append("' declared");
                text
            },
            AccessError::NoSwitch(name) => {
                let mut text = String::from_str("No switch found with the name '");
                text.append(name.name());
                text.append("'");
                text
            },
            AccessError::NoSingle(name) => {
                let mut text = String::from_str(
                    "No single-parameter argument found with the name '",
                );
                text.append(name.name());
                text.append("'");
                text
            },
            AccessError::NoMultiple(name) => {
                let mut text = String::from_str(
                    "No multi-parameter argument found with the name '",
                );
                text.append(name.name());
                text.append("'");
                text
            },
        }
    }
}

/// The characters of each of an optional list of slices.
pub open spec fn optional_texts(values: Option<Vec<&str>>) -> Option<Seq<Seq<char>>> {
    match values {
        Some(list) => Some(texts(list@)),
        None => None,
    }
}

/// The positional entries as mathematical values.
pub open spec fn positional_view(pairs: Seq<(&str, &str)>) -> Seq<(Seq<char>, Seq<char>)> {
    pairs.map_values(|pair: (&str, &str)| (pair.0@, pair.1@))
}

/// The single-parameter entries as mathematical values.
pub open spec fn singles_view(pairs: Seq<(OptName<'_>, Option<&str>)>) -> Seq<
    (OptionName, Option<Seq<char>>),
> {
    pairs.map_values(|pair: (OptName<'_>, Option<&str>)| (pair.0@, optional_text(pair.1)))
}

/// The multi-parameter entries as mathematical values.
pub open spec fn multiples_view(pairs: Seq<(OptName<'_>, Option<Vec<&str>>)>) -> Seq<
    (OptionName, Option<Seq<Seq<char>>>),
> {
    pairs.map_values(|pair: (OptName<'_>, Option<Vec<&str>>)| (pair.0@, optional_texts(pair.1)))
}

/// The switch entries as mathematical values.
pub open spec fn switches_view(pairs: Seq<(OptName<'_>, bool)>) -> Seq<(OptionName, bool)> {
    pairs.map_values(|pair: (OptName<'_>, bool)| (pair.0@, pair.1))
}

/// The alias entries as mathematical values.
pub open spec fn aliases_view(pairs: Seq<(FlagName<'_>, OptName<'_>)>) -> Seq<
    (FlagSpelling, OptionName),
> {
    pairs.map_values(|pair: (FlagName<'_>, OptName<'_>)| (pair.0@, pair.1@))
}

/// The parsed arguments of a succesful parsing.
#[derive(Debug)]
pub struct ParsedArgs<'a> {
    positional: Vec<(&'a str, &'a str)>,
    trail: Option<Vec<&'a str>>,
    singles: Vec<(OptName<'a>, Option<&'a str>)>,
    multiples: Vec<(OptName<'a>, Option<Vec<&'a str>>)>,
    switches: Vec<(OptName<'a>, bool)>,
    aliases: Vec<(FlagName<'a>, OptName<'a>)>,
}

impl<'a> View for ParsedArgs<'a> {
    type V = ParsedValues;

    closed spec fn view(&self) -> ParsedValues {
        ParsedValues {
            positional: positional_view(self.positional@),
            trail: optional_texts(self.trail),
            singles: singles_view(self.singles@),
            multiples: multiples_view(self.multiples@),
            switches: switches_view(self.switches@),
            aliases: aliases_view(self.aliases@),
        }
    }
}

impl<'a> ParsedArgs<'a> {
    /// Creates a new set of parsed arguments. Each list pairs a name with
    /// what was given for it; of two entries with one name the first counts.
    pub fn new(
        positional: Vec<(&'a str, &'a str)>,
        trail: Option<Vec<&'a str>>,
        singles: Vec<(OptName<'a>, Option<&'a str>)>,
        multiples: Vec<(OptName<'a>, Option<Vec<&'a str>>)>,
        switches: Vec<(OptName<'a>, bool)>,
        aliases: Vec<(FlagName<'a>, OptName<'a>)>,
    ) -> (parsed: ParsedArgs<'a>)
        ensures
            parsed@ == (ParsedValues {
                positional: positional_view(positional@),
                trail: optional_texts(trail),
                singles: singles_view(singles@),
                multiples: multiples_view(multiples@),
                switches: switches_view(switches@),
                aliases: aliases_view(aliases@),
            }),
    {
        ParsedArgs {
            positional: positional,
            trail: trail,
            singles: singles,
            multiples: multiples,
            switches: switches,
            aliases: aliases,
        }
    }

    /// Returns the positional argument with the given name if it exists.
    pub fn positional(&'a self, name: &'a str) -> (value: Result<&'a str, String>)
        ensures
            match lookup(self@.positional, name@) {
                Some(text) => value is Ok && value->Ok_0@ == text,
                None => value is Err && value->Err_0@ == AccessFailure::NoPositional(
                    name@,
                ).message(),
            },
    {
        let ghost pairs = positional_view(self.positional@);
        let mut i: usize = 0;
        while i < self.positional.len()
            invariant
                i <= self.positional@.len(),
                pairs == positional_view(self.positional@),
                lookup(pairs, name@) == lookup_from(pairs, name@, i as int),
            decreases self.positional@.len() - i,
        {
            let (label, value) = self.positional[i];
            assert(pairs[i as int] == (label@, value@));
            if str_eq(label, name) {
                return Ok(value);
            }
            i += 1;
        }
        Err(AccessError::NoPositional(name).message())
    }

    /// Accesses a flag with the given long name in the parsed arguments.
    pub fn named(&'a self, name: &'a str) -> (access: ParsedArgsAccess<'a>)
        ensures
            access.parsed() == self@,
            access.name() == self@.option_named(name@),
    {
        let flag = FlagName::Long(name);
        let ghost pairs = aliases_view(self.aliases@);
        let mut i: usize = 0;
        while i < self.aliases.len()
            invariant
                i <= self.aliases@.len(),
                flag@ == FlagSpelling::Long(name@),
                pairs == aliases_view(self.aliases@),
                lookup(pairs, flag@) == lookup_from(pairs, flag@, i as int),
            decreases self.aliases@.len() - i,
        {
            let (alias, option) = self.aliases[i];
            assert(pairs[i as int] == (alias@, option@));
            if alias.same(&flag) {
                return ParsedArgsAccess { name: option, args: self };
            }
            i += 1;
        }
        ParsedArgsAccess { name: OptName::Normal(name), args: self }
    }

    /// Returns the trail for the parsed arguments if any was specified.
    pub fn trail(&'a self) -> (trail: Option<Vec<&'a str>>)
        ensures
            optional_texts(trail) == self@.trail,
    {
        match &self.trail {
            Some(values) => Some(slice_to_vec(values.as_slice())),
            None => None,
        }
    }
}

/// An object to access a named member of the parsed arguments.
pub struct ParsedArgsAccess<'a> {
    name: OptName<'a>,
    args: &'a ParsedArgs<'a>,
}

impl<'a> ParsedArgsAccess<'a> {
    /// The option that is asked for.
    pub closed spec fn name(&self) -> OptionName {
        self.name@
    }

    /// The parsed arguments that are asked.
    pub closed spec fn parsed(&self) -> ParsedValues {
        self.args@
    }

    /// Returns the value of a switch.
    pub fn switch(self) -> (value: Result<bool, String>)
        ensures
            match lookup(self.parsed().switches, self.name()) {
                Some(given) => value == Ok::<bool, String>(given),
                None => value is Err && value->Err_0@ == AccessFailure::NoSwitch(
                    self.name(),
                ).message(),
            },
    {
        let ghost pairs = switches_view(self.args.switches@);
        let mut i: usize = 0;
        while i < self.args.switches.len()
            invariant
                i <= self.args.switches@.len(),
                pairs == switches_view(self.args.switches@),
                lookup(pairs, self.name@) == lookup_from(pairs, self.name@, i as int),
            decreases self.args.switches@.len() - i,
        {
            let (option, given) = self.args.switches[i];
            assert(pairs[i as int] == (option@, given));
            if option.same(&self.name) {
                return Ok(given);
            }
            i += 1;
        }
        Err(AccessError::NoSwitch(self.name).message())
    }

    /// Returns the value of a flag with a single parameter.
    pub fn single(self) -> (value: Result<Option<&'a str>, String>)
        ensures
            match lookup(self.parsed().singles, self.name()) {
                Some(given) => value is Ok && optional_text(value->Ok_0) == given,
                None => value is Err && value->Err_0@ == AccessFailure::NoSingle(
                    self.name(),
                ).message(),
            },
    {
        let ghost pairs = singles_view(self.args.singles@);
        let mut i: usize = 0;
        while i < self.args.singles.len()
            invariant
                i <= self.args.singles@.len(),
                pairs == singles_view(self.args.singles@),
                lookup(pairs, self.name@) == lookup_from(pairs, self.name@, i as int),
            decreases self.args.singles@.len() - i,
        {
            let (option, given) = self.args.singles[i];
            assert(pairs[i as int] == (option@, optional_text(given)));
            if option.same(&self.name) {
                return Ok(given);
            }
            i += 1;
        }
        Err(AccessError::NoSingle(self.name).message())
    }

    /// Returns the value of a flag with multiple parameters.
    pub fn multiple(self) -> (value: Result<Option<Vec<&'a str>>, String>)
        ensures
            match lookup(self.parsed().multiples, self.name()) {
                Some(given) => value is Ok && optional_texts(value->Ok_0) == given,
                None => value is Err && value->Err_0@ == AccessFailure::NoMultiple(
                    self.name(),
                ).message(),
            },
    {
        let ghost pairs = multiples_view(self.args.multiples@);
        let mut i: usize = 0;
        while i < self.args.multiples.len()
            invariant
                i <= self.args.multiples@.len(),
                pairs == multiples_view(self.args.multiples@),
                lookup(pairs, self.name@) == lookup_from(pairs, self.name@, i as int),
            decreases self.args.multiples@.len() - i,
        {
            let entry = &self.args.multiples[i];
            assert(pairs[i as int] == (entry.0@, optional_texts(entry.1)));
            if entry.0.same(&self.name) {
                return Ok(
                    match &entry.1 {
                        Some(values) => Some(slice_to_vec(values.as_slice())),
                        None => None,
                    },
                );
            }
            i += 1;
        }
        Err(AccessError::NoMultiple(self.name).message())
    }
}

} // verus!
