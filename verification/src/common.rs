//! The name model: the spellings a flag may have on the command line and the
//! canonical name of an optional argument.
use crate::text::{push_char, str_eq};
use vstd::prelude::*;
use vstd::string::*;

verus! {

/// One way of writing a flag, as a mathematical value.
pub enum FlagSpelling {
    /// A single character, written after one dash.
    Short(char),
    /// A word, written after two dashes.
    Long(Seq<char>),
}

impl FlagSpelling {
    /// The spelling as it is written on the command line: one dash before
    /// a short name, two before a long one.
    pub open spec fn text(self) -> Seq<char> {
        match self {
            FlagSpelling::Short(short) => "-"@.push(short),
            FlagSpelling::Long(long) => "--"@ + long,
        }
    }
}

/// The canonical name of an optional argument, as a mathematical value.
pub enum OptionName {
    /// The option has a long spelling only.
    Long(Seq<char>),
    /// The option has a short and a long spelling.
    ShortAndLong(char, Seq<char>),
}

impl OptionName {
    /// The long word of the name, without dashes.
    pub open spec fn long(self) -> Seq<char> {
        match self {
            OptionName::Long(long) => long,
            OptionName::ShortAndLong(_, long) => long,
        }
    }

    /// Whether `flag` is one of the spellings of this name.
    pub open spec fn spelled_by(self, flag: FlagSpelling) -> bool {
        match self {
            OptionName::Long(long) => flag == FlagSpelling::Long(long),
            OptionName::ShortAndLong(short, long) => flag == FlagSpelling::Short(short) || flag
                == FlagSpelling::Long(long),
        }
    }

    /// The spellings of this name, the short one first.
    pub open spec fn spellings(self) -> Seq<FlagSpelling> {
        match self {
            OptionName::Long(long) => seq![FlagSpelling::Long(long)],
            OptionName::ShortAndLong(short, long) => seq![
                FlagSpelling::Short(short),
                FlagSpelling::Long(long),
            ],
        }
    }

    /// Whether some spelling belongs to both names.
    pub open spec fn shares_spelling(self, other: OptionName) -> bool {
        exists|flag: FlagSpelling| #[trigger] self.spelled_by(flag) && other.spelled_by(flag)
    }
}

/// A single name of a flag.
#[derive(Debug, Clone, Copy, PartialEq, Eq, Hash)]
pub enum FlagName<'a> {
    Short(char),
    Long(&'a str),
}

impl<'a> View for FlagName<'a> {
    type V = FlagSpelling;

    open spec fn view(&self) -> FlagSpelling {
        match *self {
            FlagName::Short(short) => FlagSpelling::Short(short),
            FlagName::Long(long) => FlagSpelling::Long(long@),
        }
    }
}

impl<'a> FlagName<'a> {
    /// Writes the flag as it is given on the command line.
    pub fn to_string(&self) -> (text: String)
        ensures
            text@ == self@.text(),
    {
        match *self {
            FlagName::Short(short) => {
                let mut text = String::from_str("-");
                push_char(&mut text, short);
                text
            },
            FlagName::Long(long) => {
                let mut text = String::from_str("--");
                text.append(long);
                text
            },
        }
    }

    /// Tells whether two flag names are the same spelling.
    pub fn same(&self, other: &FlagName<'_>) -> (same: bool)
        ensures
            same == (self@ == other@),
    {
        match (*self, *other) {
            (FlagName::Short(a), FlagName::Short(b)) => a == b,
            (FlagName::Long(a), FlagName::Long(b)) => str_eq(a, b),
            _ => false,
        }
    }
}

/// The name of an optional flag.
#[derive(Debug, Clone, Copy, PartialEq, Eq, Hash)]
pub enum OptName<'a> {
    Normal(&'a str),
    NormalAndShort(&'a str, char),
}

impl<'a> View for OptName<'a> {
    type V = OptionName;

    open spec fn view(&self) -> OptionName {
        match *self {
            OptName::Normal(long) => OptionName::Long(long@),
            OptName::NormalAndShort(long, short) => OptionName::ShortAndLong(short, long@),
        }
    }
}

impl<'a> OptName<'a> {
    /// Returns the long name of this optional argument
    pub fn name(&self) -> (long: &'a str)
        ensures
            long@ == self@.long(),
    {
        match *self {
            OptName::Normal(name) => name,
            OptName::NormalAndShort(name, _) => name,
        }
    }

    /// Tells whether two names are the same canonical name.
    pub fn same(&self, other: &OptName<'_>) -> (same: bool)
        ensures
            same == (self@ == other@),
    {
        match (*self, *other) {
            (OptName::Normal(a), OptName::Normal(b)) => str_eq(a, b),
            (OptName::NormalAndShort(a, x), OptName::NormalAndShort(b, y)) => x == y && str_eq(
                a,
                b,
            ),
            _ => false,
        }
    }

    /// Tells whether `flag` is one of the spellings of this name.
    pub fn spelled_by(&self, flag: &FlagName<'_>) -> (hit: bool)
        ensures
            hit == self@.spelled_by(flag@),
    {
        match (*self, *flag) {
            (OptName::Normal(long), FlagName::Long(word)) => str_eq(long, word),
            (OptName::NormalAndShort(long, _), FlagName::Long(word)) => str_eq(long, word),
            (OptName::NormalAndShort(_, short), FlagName::Short(letter)) => short == letter,
            _ => false,
        }
    }
}

/// Returns the flag names that might denote this option.
pub fn optional_flag_names<'a>(name: OptName<'a>) -> (names: Vec<FlagName<'a>>)
    ensures
        names@.len() == name@.spellings().len(),
        forall|k: int| 0 <= k < names@.len() ==> (#[trigger] names@[k])@ == name@.spellings()[k],
{
    let names = match name {
        OptName::Normal(long) => vec![FlagName::Long(long)],
        OptName::NormalAndShort(long, ch) => vec![FlagName::Short(ch), FlagName::Long(long)],
    };
    names
}

} // verus!
