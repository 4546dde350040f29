//! The argument parser: the registry that collects declarations and hands them
//! to a parse.
use crate::arg::{internal_get_raw, Arg, ArgType, ArgumentDeclaration};
use crate::common::{optional_flag_names, FlagName, FlagSpelling, OptName, OptionName};
use crate::registry::{
    claimed_spelling, defined, defined_all, find_flag, flag_declared, lemma_define_keeps_ok,
    lemma_resolve_declared, positional_labels, refusal, registry_ok, resolve, trail_of,
    DefineFailure, Registry,
};
use crate::text::{str_eq, texts};
use vstd::prelude::*;
use vstd::string::*;

verus! {

/// The possible types of a required argument that isn't positional.
#[derive(Debug, Clone, Copy, PartialEq, Eq)]
pub enum ReqType {
    ZeroPlus,
    OnePlus,
}

/// Why the parser refused an argument definition.
#[derive(Debug, Clone, Copy, PartialEq, Eq)]
pub enum DefineError<'a> {
    /// The flag is already defined by an earlier argument.
    FlagAlreadyDefined(FlagName<'a>),
    /// A positional argument with this name has already been added.
    PositionalAlreadyDefined(&'a str),
    /// A trailing argument has already been set.
    TrailAlreadySet,
    /// A trailing argument has already been set, and every positional
    /// argument comes before the trail.
    PositionalAfterTrail(&'a str),
}

impl<'a> View for DefineError<'a> {
    type V = DefineFailure;

    open spec fn view(&self) -> DefineFailure {
        match *self {
            DefineError::FlagAlreadyDefined(flag) => DefineFailure::FlagAlreadyDefined(flag@),
            DefineError::PositionalAlreadyDefined(name) => DefineFailure::PositionalAlreadyDefined(
                name@,
            ),
            DefineError::TrailAlreadySet => DefineFailure::TrailAlreadySet,
            DefineError::PositionalAfterTrail(name) => DefineFailure::PositionalAfterTrail(name@),
        }
    }
}

impl<'a> DefineError<'a> {
    /// Says in words why the definition was refused.
    pub fn message(&self) -> (text: String)
        ensures
            text@ == self@.message(),
    {
        match *self {
            DefineError::FlagAlreadyDefined(flag) => {
                let mut text = String::from_str("The flag '");
                let name = flag.to_string();
                text.append(name.as_str());
                text.append("' is already defined");
                text
            },
            DefineError::PositionalAlreadyDefined(name) => {
                let mut text = String::from_str("A positional argument with the name '");
                text.append(name);
                text.append("' has already been added");
                text
            },
            DefineError::TrailAlreadySet => String::from_str(
                "A trailing argument has already been set",
            ),
            DefineError::PositionalAfterTrail(name) => {
                let mut text = String::from_str("The positional argument '");
                text.append(name);
                text.append("' cannot be added after the trailing argument");
                text
            },
        }
    }
}

/// The declarations that a list of argument descriptions stands for.
pub open spec fn declarations(args: Seq<Arg<'_>>) -> Registry {
    args.map_values(|arg: Arg<'_>| arg@)
}

/// The trail that the parser keeps, as a mathematical value.
pub open spec fn trail_view(trail: Option<(&str, ReqType)>) -> Option<(Seq<char>, bool)> {
    match trail {
        Some((label, req)) => Some((label@, req is OnePlus)),
        None => None,
    }
}

/// An argument parser.
#[derive(Debug)]
pub struct Parser<'a> {
    positional: Vec<&'a str>,
    trail: Option<(&'a str, ReqType)>,
    definitions: Vec<Arg<'a>>,
}

impl<'a> View for Parser<'a> {
    type V = Registry;

    closed spec fn view(&self) -> Registry {
        declarations(self.definitions@)
    }
}

impl<'a> Parser<'a> {
    /// The invariant of the parser: its registry is free of conflicts, and the
    /// positions and the trail it keeps at hand are those of the registry.
    pub closed spec fn wf(&self) -> bool {
        &&& registry_ok(self@)
        &&& texts(self.positional@) == positional_labels(self@)
        &&& trail_view(self.trail) == trail_of(self@)
    }

    /// A well-formed parser holds a registry without conflicts.
    pub proof fn lemma_wf_registry_ok(&self)
        requires
            self.wf(),
        ensures
            registry_ok(self@),
    {
    }

    /// Creates a new parser.
    pub fn new() -> (parser: Parser<'a>)
        ensures
            parser.wf(),
            parser@ == Seq::<ArgumentDeclaration>::empty(),
    {
        let parser = Parser { positional: Vec::new(), trail: None, definitions: Vec::new() };
        assert(parser@ =~= Seq::<ArgumentDeclaration>::empty());
        assert(texts(parser.positional@) =~= positional_labels(parser@));
        parser
    }

    /// The labels of the positional arguments, in the order of definition.
    pub(crate) fn positional_names(&self) -> (names: &Vec<&'a str>)
        requires
            self.wf(),
        ensures
            texts(names@) == positional_labels(self@),
    {
        &self.positional
    }

    /// The trail of the parser, if one was defined.
    pub(crate) fn trail_kind(&self) -> (trail: Option<(&'a str, ReqType)>)
        requires
            self.wf(),
        ensures
            trail_view(trail) == trail_of(self@),
    {
        self.trail
    }

    /// Finds the optional argument that a flag denotes.
    pub fn lookup(&self, flag: &FlagName<'_>) -> (found: Option<ArgType<'a>>)
        ensures
            found is Some == resolve(self@, flag@) is Some,
            found is Some ==> found->0@ == resolve(self@, flag@)->0,
    {
        let mut i: usize = 0;
        while i < self.definitions.len()
            invariant
                i <= self.definitions@.len(),
                self@.len() == self.definitions@.len(),
                find_flag(self@, flag@, 0) == find_flag(self@, flag@, i as int),
            decreases self.definitions@.len() - i,
        {
            let arg = self.definitions[i];
            assert(self@[i as int] == arg@);
            if let Some(name) = arg.option_name() {
                if name.spelled_by(flag) {
                    return Some(internal_get_raw(arg));
                }
            }
            i += 1;
        }
        None
    }

    /// Tells whether a positional argument of this name was defined.
    fn has_positional(&self, name: &str) -> (held: bool)
        ensures
            held == texts(self.positional@).contains(name@),
    {
        let mut i: usize = 0;
        while i < self.positional.len()
            invariant
                i <= self.positional@.len(),
                forall|k: int| 0 <= k < i ==> texts(self.positional@)[k] != name@,
            decreases self.positional@.len() - i,
        {
            if str_eq(self.positional[i], name) {
                assert(texts(self.positional@)[i as int] == name@);
                return true;
            }
            i += 1;
        }
        false
    }

    /// Tells which of the spellings of a name is already taken, the short
    /// one first.
    fn taken_flag(&self, name: OptName<'a>) -> (taken: Option<FlagName<'a>>)
        ensures
            taken is Some == claimed_spelling(self@, name@) is Some,
            taken is Some ==> taken->0@ == claimed_spelling(self@, name@)->0,
    {
        let names = optional_flag_names(name);
        let mut i: usize = 0;
        while i < names.len()
            invariant
                i <= names@.len(),
                names@.len() == name@.spellings().len(),
                forall|k: int| 0 <= k < names@.len() ==> (#[trigger] names@[k])@ == name@.spellings()[k],
                forall|k: int| 0 <= k < i ==> !flag_declared(self@, #[trigger] name@.spellings()[k]),
            decreases names@.len() - i,
        {
            let flag = names[i];
            proof {
                lemma_resolve_declared(self@, flag@);
            }
            if self.lookup(&flag).is_some() {
                assert(flag@ == name@.spellings()[i as int]);
                return Some(flag);
            }
            i += 1;
        }
        proof {
            assert(forall|k: int|
                0 <= k < name@.spellings().len() ==> !flag_declared(
                    self@,
                    #[trigger] name@.spellings()[k],
                ));
            match name@ {
                OptionName::Long(long) => {
                    assert(name@.spellings()[0] == FlagSpelling::Long(long));
                },
                OptionName::ShortAndLong(short, long) => {
                    assert(name@.spellings()[0] == FlagSpelling::Short(short));
                    assert(name@.spellings()[1] == FlagSpelling::Long(long));
                },
            }
        }
        None
    }

    /// Tells why the parser would refuse an argument definition: because an
    /// optional argument with one of its flags has already been added, or a
    /// positional argument of its name, because a trail is added twice, or
    /// because a positional argument comes after the trail. Returns nothing
    /// where the definition can be added.
    pub fn check(&self, arg: &Arg<'a>) -> (why: Option<DefineError<'a>>)
        requires
            self.wf(),
        ensures
            match refusal(self@, arg@) {
                Some(failure) => why is Some && why->0@ == failure,
                None => why is None,
            },
    {
        match internal_get_raw(*arg) {
            ArgType::Single(name) => {
                if self.has_positional(name) {
                    Some(DefineError::PositionalAlreadyDefined(name))
                } else if self.trail.is_some() {
                    Some(DefineError::PositionalAfterTrail(name))
                } else {
                    None
                }
            },
            ArgType::ZeroPlus(_) | ArgType::OnePlus(_) => {
                if self.trail.is_some() {
                    Some(DefineError::TrailAlreadySet)
                } else {
                    None
                }
            },
            _ => {
                let name = arg.option_name().unwrap();
                match self.taken_flag(name) {
                    Some(flag) => Some(DefineError::FlagAlreadyDefined(flag)),
                    None => None,
                }
            },
        }
    }

    /// Adds an argument definition to the parser.
    /// Errors if an optional argument with the same name has already been
    /// added, if a positional argument of the same name has, if a trail is
    /// added twice, or if a positional argument comes after the trail. The
    /// error says which in words. A definition that is refused leaves the
    /// parser as it was.
    pub fn define_single(&mut self, arg: Arg<'a>) -> (done: Result<(), String>)
        requires
            old(self).wf(),
        ensures
            final(self).wf(),
            final(self)@ == defined(old(self)@, arg@),
            match refusal(old(self)@, arg@) {
                Some(failure) => done is Err && done->Err_0@ == failure.message(),
                None => done is Ok,
            },
    {
        let ghost before = self@;
        if let Some(error) = self.check(&arg) {
            return Err(error.message());
        }
        match internal_get_raw(arg) {
            ArgType::Single(name) => {
                self.positional.push(name);
                assert(texts(self.positional@) =~= texts(old(self).positional@).push(name@));
            },
            ArgType::ZeroPlus(name) => {
                self.trail = Some((name, ReqType::ZeroPlus));
            },
            ArgType::OnePlus(name) => {
                self.trail = Some((name, ReqType::OnePlus));
            },
            _ => {},
        }
        self.definitions.push(arg);
        proof {
            assert(self@ =~= before.push(arg@));
            assert(self@.drop_last() =~= before);
            lemma_define_keeps_ok(before, arg@);
        }
        Ok(())
    }

    /// Adds a list of argument definitions to the parser, in order.
    /// Stops at the first definition that is refused, with its error; the
    /// definitions before it stay added.
    pub fn define(&mut self, args: &[Arg<'a>]) -> (done: Result<(), String>)
        requires
            old(self).wf(),
        ensures
            final(self).wf(),
            final(self)@ == defined_all(old(self)@, declarations(args@), 0).0,
            match defined_all(old(self)@, declarations(args@), 0).1 {
                Some(failure) => done is Err && done->Err_0@ == failure.message(),
                None => done is Ok,
            },
    {
        let mut i: usize = 0;
        while i < args.len()
            invariant
                i <= args@.len(),
                self.wf(),
                declarations(args@).len() == args@.len(),
                defined_all(old(self)@, declarations(args@), 0) == defined_all(
                    self@,
                    declarations(args@),
                    i as int,
                ),
            decreases args@.len() - i,
        {
            let arg = args[i];
            assert(declarations(args@)[i as int] == arg@);
            match self.define_single(arg) {
                Err(error) => {
                    return Err(error);
                },
                Ok(_) => {},
            }
            i += 1;
        }
        Ok(())
    }
}

/// The definitions that were added to the parser, oldest first.
pub fn internal_get_definitions<'a, 'b>(parser: &'b Parser<'a>) -> (definitions: &'b Vec<Arg<'a>>)
    ensures
        declarations(definitions@) == parser@,
{
    &parser.definitions
}

} // verus!
