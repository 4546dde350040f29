//! The lexical classes of a raw command-line token.
use crate::common::{FlagName, FlagSpelling};
use crate::text::chars_of;
use vstd::prelude::*;
use vstd::string::*;

verus! {

/// The lexical class of a raw token, as a mathematical value.
pub enum Token {
    /// A bare value, unmodified.
    Value(Seq<char>),
    /// One flag, long or short.
    Flag(FlagSpelling),
    /// Several short flags written behind one dash: their letters, left to
    /// right, each of which stands for its own short spelling.
    GroupedShortFlags(Seq<char>),
}

/// The class of a raw token. Two leading dashes make a long flag of what
/// follows; one dash and one character make a short flag; one dash and
/// several characters make a group of short flags; anything else, a lone
/// dash too, is a value.
///
/// The bare `--` is the long flag with the empty name and nothing else: it
/// means something only where an argument was declared under the empty
/// name, as a pass-along argument customarily is.
pub open spec fn classify(token: Seq<char>) -> Token {
    if token.len() >= 2 && token[0] == '-' && token[1] == '-' {
        Token::Flag(FlagSpelling::Long(token.skip(2)))
    } else if token.len() == 2 && token[0] == '-' {
        Token::Flag(FlagSpelling::Short(token[1]))
    } else if token.len() > 2 && token[0] == '-' {
        Token::GroupedShortFlags(token.skip(1))
    } else {
        Token::Value(token)
    }
}

/// An argument given by the user.
#[derive(Debug, Clone, PartialEq, Eq)]
pub enum GivenArgument<'a> {
    Value(&'a str),
    Flag(FlagName<'a>),
    ShortFlags(Vec<char>),
}

impl<'a> View for GivenArgument<'a> {
    type V = Token;

    open spec fn view(&self) -> Token {
        match *self {
            GivenArgument::Value(value) => Token::Value(value@),
            GivenArgument::Flag(flag) => Token::Flag(flag@),
            GivenArgument::ShortFlags(letters) => Token::GroupedShortFlags(letters@),
        }
    }
}

/// Classifies a raw token as a value, a flag or a group of short flags.
pub fn argument_type<'a>(arg: &'a str) -> (given: GivenArgument<'a>)
    ensures
        given@ == classify(arg@),
{
    let len: usize = arg.unicode_len();
    if len >= 2 && arg.get_char(0) == '-' && arg.get_char(1) == '-' {
        let rest = arg.substring_char(2, len);
        assert(arg@.subrange(2, len as int) =~= arg@.skip(2));
        GivenArgument::Flag(FlagName::Long(rest))
    } else if len >= 2 && arg.get_char(0) == '-' {
        if len == 2 {
            GivenArgument::Flag(FlagName::Short(arg.get_char(1)))
        } else {
            let letters = arg.substring_char(1, len);
            assert(arg@.subrange(1, len as int) =~= arg@.skip(1));
            GivenArgument::ShortFlags(chars_of(letters))
        }
    } else {
        GivenArgument::Value(arg)
    }
}

} // verus!
