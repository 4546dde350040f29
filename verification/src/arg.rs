//! Parser arguments.
use crate::common::{OptName, OptionName};
use vstd::prelude::*;

verus! {

/// What one declared argument is, as a mathematical value.
pub enum ArgumentKind {
    /// Exactly one required value at a fixed position.
    Positional(Seq<char>),
    /// Every value left over once the fixed positions are filled; may be empty.
    TrailZeroOrMore(Seq<char>),
    /// Every value left over once the fixed positions are filled; at least one.
    TrailOneOrMore(Seq<char>),
    /// An option followed by exactly one value.
    OptionSingle(OptionName),
    /// An option followed by a run of values, which may be empty.
    OptionZeroOrMore(OptionName),
    /// An option followed by a run of at least one value.
    OptionOneOrMore(OptionName),
    /// A flag that is present or absent.
    Switch(OptionName),
    /// A flag whose presence replaces the whole parse.
    Interrupt(OptionName),
    /// A flag that hands on every token after it, unread.
    PassAlong(OptionName),
}

impl ArgumentKind {
    /// The canonical name, where the argument is an optional one.
    pub open spec fn option_name(self) -> Option<OptionName> {
        match self {
            ArgumentKind::OptionSingle(name) => Some(name),
            ArgumentKind::OptionZeroOrMore(name) => Some(name),
            ArgumentKind::OptionOneOrMore(name) => Some(name),
            ArgumentKind::Switch(name) => Some(name),
            ArgumentKind::Interrupt(name) => Some(name),
            ArgumentKind::PassAlong(name) => Some(name),
            _ => None,
        }
    }

    /// The label of a positional or trail argument, the long word of an
    /// optional one.
    pub open spec fn name(self) -> Seq<char> {
        match self {
            ArgumentKind::Positional(label) => label,
            ArgumentKind::TrailZeroOrMore(label) => label,
            ArgumentKind::TrailOneOrMore(label) => label,
            ArgumentKind::OptionSingle(name) => name.long(),
            ArgumentKind::OptionZeroOrMore(name) => name.long(),
            ArgumentKind::OptionOneOrMore(name) => name.long(),
            ArgumentKind::Switch(name) => name.long(),
            ArgumentKind::Interrupt(name) => name.long(),
            ArgumentKind::PassAlong(name) => name.long(),
        }
    }

    /// Whether this is one of the two trail kinds.
    pub open spec fn is_trail(self) -> bool {
        self is TrailZeroOrMore || self is TrailOneOrMore
    }
}

/// One declared argument, as a mathematical value.
pub struct ArgumentDeclaration {
    pub kind: ArgumentKind,
    pub parameter_label: Option<Seq<char>>,
    pub help_text: Option<Seq<char>>,
}

impl ArgumentDeclaration {
    /// The declaration of the given kind that carries no label and no help.
    pub open spec fn bare(kind: ArgumentKind) -> ArgumentDeclaration {
        ArgumentDeclaration { kind, parameter_label: None, help_text: None }
    }
}

/// The text held by an optional slice, or the empty text.
pub open spec fn text_or_empty(text: Option<Seq<char>>) -> Seq<char> {
    match text {
        Some(t) => t,
        None => Seq::empty(),
    }
}

/// The different kinds of arguments that can be given to the parser.
#[derive(Debug, Clone, Copy, PartialEq, Eq)]
pub enum ArgType<'a> {
    Single(&'a str),
    ZeroPlus(&'a str),
    OnePlus(&'a str),
    OptSingle(OptName<'a>),
    OptZeroPlus(OptName<'a>),
    OptOnePlus(OptName<'a>),
    Switch(OptName<'a>),
    Interrupt(OptName<'a>),
    PassAlong(OptName<'a>),
}

impl<'a> View for ArgType<'a> {
    type V = ArgumentKind;

    open spec fn view(&self) -> ArgumentKind {
        match *self {
            ArgType::Single(label) => ArgumentKind::Positional(label@),
            ArgType::ZeroPlus(label) => ArgumentKind::TrailZeroOrMore(label@),
            ArgType::OnePlus(label) => ArgumentKind::TrailOneOrMore(label@),
            ArgType::OptSingle(name) => ArgumentKind::OptionSingle(name@),
            ArgType::OptZeroPlus(name) => ArgumentKind::OptionZeroOrMore(name@),
            ArgType::OptOnePlus(name) => ArgumentKind::OptionOneOrMore(name@),
            ArgType::Switch(name) => ArgumentKind::Switch(name@),
            ArgType::Interrupt(name) => ArgumentKind::Interrupt(name@),
            ArgType::PassAlong(name) => ArgumentKind::PassAlong(name@),
        }
    }
}

/// An argument description for the parser.
#[derive(Debug, Clone, Copy, PartialEq, Eq)]
pub struct Arg<'a> {
    argtype: ArgType<'a>,
    param: Option<&'a str>,
    help: Option<&'a str>,
}

/// The characters of an optional slice.
pub open spec fn optional_text(text: Option<&str>) -> Option<Seq<char>> {
    match text {
        Some(t) => Some(t@),
        None => None,
    }
}

impl<'a> View for Arg<'a> {
    type V = ArgumentDeclaration;

    closed spec fn view(&self) -> ArgumentDeclaration {
        ArgumentDeclaration {
            kind: self.argtype@,
            parameter_label: optional_text(self.param),
            help_text: optional_text(self.help),
        }
    }
}

impl<'a> Arg<'a> {
    fn new(argtype: ArgType<'a>) -> (arg: Arg<'a>)
        ensures
            arg@ == ArgumentDeclaration::bare(argtype@),
    {
        Arg { argtype: argtype, param: None, help: None }
    }

    /// Creates a positional argument with the given parameter name.
    pub fn positional(name: &'a str) -> (arg: Arg<'a>)
        ensures
            arg@ == ArgumentDeclaration::bare(ArgumentKind::Positional(name@)),
    {
        Arg::new(ArgType::Single(name))
    }

    /// Creates an argument that requires zero or more trailing parameters.
    pub fn optional_trail(name: &'a str) -> (arg: Arg<'a>)
        ensures
            arg@ == ArgumentDeclaration::bare(ArgumentKind::TrailZeroOrMore(name@)),
    {
        Arg::new(ArgType::ZeroPlus(name))
    }

    /// Creates an argument that requires one or more trailing parameters.
    pub fn required_trail(name: &'a str) -> (arg: Arg<'a>)
        ensures
            arg@ == ArgumentDeclaration::bare(ArgumentKind::TrailOneOrMore(name@)),
    {
        Arg::new(ArgType::OnePlus(name))
    }

    /// Creates a new optional argument with a short name (ex 'h' for -h).
    pub fn named_and_short(name: &'a str, short: char) -> (opt: OptArg<'a>)
        ensures
            opt@ == OptionName::ShortAndLong(short, name@),
    {
        OptArg { name: OptName::NormalAndShort(name, short) }
    }

    /// Creates a new optional argument with the given flag name.
    /// (ex "help" for --help). The empty name stands for the bare `--`.
    pub fn named(name: &'a str) -> (opt: OptArg<'a>)
        ensures
            opt@ == OptionName::Long(name@),
    {
        OptArg { name: OptName::Normal(name) }
    }

    /// Returns the option name of this argument.
    /// This is the long name without prefixing dashes (eg: "help" for "--help").
    pub fn option_name(&self) -> (name: Option<OptName<'a>>)
        ensures
            name is Some == self@.kind.option_name() is Some,
            name is Some ==> name->0@ == self@.kind.option_name()->0,
    {
        match self.argtype {
            ArgType::OptSingle(optname) => Some(optname),
            ArgType::OptZeroPlus(optname) => Some(optname),
            ArgType::OptOnePlus(optname) => Some(optname),
            ArgType::Switch(optname) => Some(optname),
            ArgType::Interrupt(optname) => Some(optname),
            ArgType::PassAlong(optname) => Some(optname),
            _ => None,
        }
    }

    /// Returns the long name of this argument.
    pub fn name(&self) -> (name: &'a str)
        ensures
            name@ == self@.kind.name(),
    {
        match self.argtype {
            ArgType::Single(name) => name,
            ArgType::ZeroPlus(name) => name,
            ArgType::OnePlus(name) => name,
            ArgType::OptSingle(opt) => opt.name(),
            ArgType::OptZeroPlus(opt) => opt.name(),
            ArgType::OptOnePlus(opt) => opt.name(),
            ArgType::Switch(opt) => opt.name(),
            ArgType::Interrupt(opt) => opt.name(),
            ArgType::PassAlong(opt) => opt.name(),
        }
    }

    /// Returns the parameter name of this argument definition.
    pub fn param(&self) -> (label: &'a str)
        ensures
            label@ == text_or_empty(self@.parameter_label),
    {
        if let Some(param) = self.param {
            param
        } else {
            proof {
                reveal_strlit("");
            }
            assert(""@ =~= Seq::<char>::empty());
            ""
        }
    }

    /// Returns the help text of this argument definition.
    pub fn help(&self) -> (text: &'a str)
        ensures
            text@ == text_or_empty(self@.help_text),
    {
        if let Some(help) = self.help {
            help
        } else {
            proof {
                reveal_strlit("");
            }
            assert(""@ =~= Seq::<char>::empty());
            ""
        }
    }

    /// Adds a parameter name to this argument definition.
    pub fn add_param(self, name: &'a str) -> (arg: Arg<'a>)
        ensures
            arg@ == (ArgumentDeclaration { parameter_label: Some(name@), ..self@ }),
    {
        let mut arg = self;
        arg.param = Some(name);
        arg
    }

    /// Adds a help text to this argument definition.
    pub fn add_help(self, text: &'a str) -> (arg: Arg<'a>)
        ensures
            arg@ == (ArgumentDeclaration { help_text: Some(text@), ..self@ }),
    {
        let mut arg = self;
        arg.help = Some(text);
        arg
    }
}

/// Returns the kind of argument that a description declares.
pub fn internal_get_raw<'a>(arg: Arg<'a>) -> (kind: ArgType<'a>)
    ensures
        kind@ == arg@.kind,
{
    arg.argtype
}

/// A partial builder for an optional argument.
#[derive(Debug)]
#[must_use]
pub struct OptArg<'a> {
    name: OptName<'a>,
}

impl<'a> View for OptArg<'a> {
    type V = OptionName;

    closed spec fn view(&self) -> OptionName {
        self.name@
    }
}

impl<'a> OptArg<'a> {
    /// The argument takes a single parameter.
    pub fn single(self) -> (arg: Arg<'a>)
        ensures
            arg@ == ArgumentDeclaration::bare(ArgumentKind::OptionSingle(self@)),
    {
        Arg::new(ArgType::OptSingle(self.name))
    }

    /// The argument takes one or more parameters.
    pub fn one_or_more(self) -> (arg: Arg<'a>)
        ensures
            arg@ == ArgumentDeclaration::bare(ArgumentKind::OptionOneOrMore(self@)),
    {
        Arg::new(ArgType::OptOnePlus(self.name))
    }

    /// The argument takes zero or more parameters.
    pub fn zero_or_more(self) -> (arg: Arg<'a>)
        ensures
            arg@ == ArgumentDeclaration::bare(ArgumentKind::OptionZeroOrMore(self@)),
    {
        Arg::new(ArgType::OptZeroPlus(self.name))
    }

    /// The argument is an interrupt (the parse is interrupted when it is encountered).
    pub fn interrupt(self) -> (arg: Arg<'a>)
        ensures
            arg@ == ArgumentDeclaration::bare(ArgumentKind::Interrupt(self@)),
    {
        Arg::new(ArgType::Interrupt(self.name))
    }

    /// The argument is a switch (boolean flag).
    pub fn switch(self) -> (arg: Arg<'a>)
        ensures
            arg@ == ArgumentDeclaration::bare(ArgumentKind::Switch(self@)),
    {
        Arg::new(ArgType::Switch(self.name))
    }

    /// The argument is a passalong (all following arguments are collected)
    pub fn passalong(self) -> (arg: Arg<'a>)
        ensures
            arg@ == ArgumentDeclaration::bare(ArgumentKind::PassAlong(self@)),
    {
        Arg::new(ArgType::PassAlong(self.name))
    }
}

} // verus!
