//! What a parse hands out: structured arguments and parse errors.
use crate::text::texts;
use vstd::prelude::*;

verus! {

/// One structured argument, as a mathematical value.
pub enum StructuredItem {
    /// A value bound to the positional argument of this label.
    Positional { label: Seq<char>, value: Seq<char> },
    /// The values left over once every position was filled.
    Trail { values: Seq<Seq<char>> },
    /// An option with its one value.
    OptionValue { name: Seq<char>, value: Seq<char> },
    /// An option with its run of values.
    OptionValues { name: Seq<char>, values: Seq<Seq<char>> },
    /// A switch that is present.
    SwitchHit { name: Seq<char> },
    /// An interrupt that is present.
    InterruptHit { name: Seq<char> },
    /// A pass-along flag with every token behind it.
    PassAlongHit { name: Seq<char>, remaining: Seq<Seq<char>> },
}

/// Why a parse failed, as a mathematical value.
pub enum ParseFailure {
    /// No declaration claims the spelling of this flag token.
    UnknownOptionalArgument { arg: Seq<char> },
    /// A letter in this group of short flags denotes an argument that is no
    /// switch; `invalid` is that letter, written as a short flag.
    GroupedNonSwitch { arg: Seq<char>, invalid: Seq<char> },
    /// The option written as this token is followed by too few values.
    MissingParameter { arg: Seq<char> },
    /// No value was given for the positional argument of this label.
    MissingPositionalArgument { arg: Seq<char> },
    /// The option written as this token was already given.
    DuplicateArgument { arg: Seq<char> },
    /// No value was given for the required trail of this label.
    MissingTrail { arg: Seq<char> },
    /// This value has no position and no trail to go to.
    UnexpectedArgument { arg: Seq<char> },
}

/// What a parse yields at one step: an item, or the error that ends it.
pub type Yield = Result<StructuredItem, ParseFailure>;

/// An error found when attempting to parse a set of arguments.
#[derive(Debug, Clone, PartialEq, Eq)]
pub enum ParseError<'a> {
    /// This optional argument is not recognized by the parser.
    UnknownOptionalArgument { arg: &'a str },
    /// The given short flag is not a switch and therefore cannot be grouped
    /// when used (if '-x' takes the argument 'FOO', you cannot call '-vasx').
    GroupedNonSwitch { arg: &'a str, invalid: String },
    /// This argument is missing a parameter.
    MissingParameter { arg: &'a str },
    /// This positional argument wasn't given.
    MissingPositionalArgument { arg: &'a str },
    /// This optional argument was given twice.
    DuplicateArgument { arg: &'a str },
    /// The required trail argument is missing.
    MissingTrail { arg: &'a str },
    /// The given positional argument was not expected by the parser.
    UnexpectedArgument { arg: &'a str },
}

impl<'a> View for ParseError<'a> {
    type V = ParseFailure;

    open spec fn view(&self) -> ParseFailure {
        match *self {
            ParseError::UnknownOptionalArgument { arg } => ParseFailure::UnknownOptionalArgument {
                arg: arg@,
            },
            ParseError::GroupedNonSwitch { arg, invalid } => ParseFailure::GroupedNonSwitch {
                arg: arg@,
                invalid: invalid@,
            },
            ParseError::MissingParameter { arg } => ParseFailure::MissingParameter { arg: arg@ },
            ParseError::MissingPositionalArgument { arg } => ParseFailure::MissingPositionalArgument {
                arg: arg@,
            },
            ParseError::DuplicateArgument { arg } => ParseFailure::DuplicateArgument { arg: arg@ },
            ParseError::MissingTrail { arg } => ParseFailure::MissingTrail { arg: arg@ },
            ParseError::UnexpectedArgument { arg } => ParseFailure::UnexpectedArgument {
                arg: arg@,
            },
        }
    }
}

/// One or more arguments structured by the parser.
#[derive(Debug, Clone, PartialEq, Eq)]
pub enum StructuredArgument<'a> {
    /// A positional argument.
    Positional { name: &'a str, value: &'a str },
    /// The trail of arguments left after all the positional arguments have been
    /// found.
    Trail { values: Vec<&'a str> },
    /// An optional argument taking a single value.
    Single { name: &'a str, parameter: &'a str },
    /// An optional argument taking multiple values.
    Multiple { name: &'a str, parameters: &'a [&'a str] },
    /// An optional argument that is present.
    Switch { name: &'a str },
    /// An optional argument which interrupt the parse when encountered.
    Interrupt { name: &'a str },
    /// An optional argument which collects all following arguments without
    /// parsing them (for parsing arguments along to a subcommand or alike).
    PassAlong { name: &'a str, args: &'a [&'a str] },
}

impl<'a> View for StructuredArgument<'a> {
    type V = StructuredItem;

    open spec fn view(&self) -> StructuredItem {
        match *self {
            StructuredArgument::Positional { name, value } => StructuredItem::Positional {
                label: name@,
                value: value@,
            },
            StructuredArgument::Trail { values } => StructuredItem::Trail {
                values: texts(values@),
            },
            StructuredArgument::Single { name, parameter } => StructuredItem::OptionValue {
                name: name@,
                value: parameter@,
            },
            StructuredArgument::Multiple { name, parameters } => StructuredItem::OptionValues {
                name: name@,
                values: texts(parameters@),
            },
            StructuredArgument::Switch { name } => StructuredItem::SwitchHit { name: name@ },
            StructuredArgument::Interrupt { name } => StructuredItem::InterruptHit { name: name@ },
            StructuredArgument::PassAlong { name, args } => StructuredItem::PassAlongHit {
                name: name@,
                remaining: texts(args@),
            },
        }
    }
}

/// What one step of a parse returned, as a mathematical value.
pub open spec fn yield_view(
    step: Option<Result<StructuredArgument<'_>, ParseError<'_>>>,
) -> Option<Yield> {
    match step {
        Some(Ok(item)) => Some(Ok(item@)),
        Some(Err(error)) => Some(Err(error@)),
        None => None,
    }
}

/// How a parse ended, as a mathematical value.
pub enum Outcome {
    /// The parse went through; these are its items, in order.
    Structured(Seq<StructuredItem>),
    /// The tokens held the interrupt of this name.
    Interrupted(Seq<char>),
    /// The parse failed.
    Failed(ParseFailure),
}

/// The items that a list of structured arguments stands for.
pub open spec fn items_view(items: Seq<StructuredArgument<'_>>) -> Seq<StructuredItem> {
    items.map_values(|item: StructuredArgument<'_>| item@)
}

/// How a parse ended: with all its structured arguments, with an interrupt,
/// or with an error.
#[derive(Debug, Clone, PartialEq, Eq)]
pub enum ParseOutcome<'a> {
    /// The parse went through; these are its arguments, in order.
    Structured(Vec<StructuredArgument<'a>>),
    /// The parse was interrupted by the argument of this name.
    Interrupted(&'a str),
    /// The parse failed.
    Failed(ParseError<'a>),
}

impl<'a> View for ParseOutcome<'a> {
    type V = Outcome;

    open spec fn view(&self) -> Outcome {
        match *self {
            ParseOutcome::Structured(items) => Outcome::Structured(items_view(items@)),
            ParseOutcome::Interrupted(name) => Outcome::Interrupted(name@),
            ParseOutcome::Failed(error) => Outcome::Failed(error@),
        }
    }
}

} // verus!
