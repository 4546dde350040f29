//! Lets the user structure the arguments given to a program through a
//! command-line.
//!
//! A tool declares its arguments with [`Arg`], adds them to a [`Parser`] and
//! hands the parser the tokens of a command line. The [`Parse`] that it gets
//! back yields one [`StructuredArgument`] at a step, or the [`ParseError`]
//! that ends the parse.
//!
//! Every function of the library has a contract, stated over mathematical
//! values: [`registry`] holds the model of the parser, [`engine`] the state
//! machine that a parse follows, and [`laws`] what follows from the two.
pub mod arg;
pub mod common;
pub mod engine;
pub mod help;
pub mod items;
pub mod laws;
pub mod parse;
pub mod parsed_args;
pub mod parser;
pub mod registry;
pub mod text;
pub mod token;

pub use arg::{internal_get_raw, Arg, ArgType, OptArg};
pub use common::{optional_flag_names, FlagName, OptName};
pub use help::{align_lines, argument_cells, generate_help, pad_text};
pub use items::{ParseError, ParseOutcome, StructuredArgument};
pub use parse::Parse;
pub use parsed_args::{AccessError, ParsedArgs, ParsedArgsAccess};
pub use parser::{internal_get_definitions, DefineError, Parser};
pub use text::{chars_of, str_eq};
pub use token::{argument_type, GivenArgument};
