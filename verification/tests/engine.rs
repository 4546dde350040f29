use argonaut::{Arg, ParseError, ParseOutcome, Parser, StructuredArgument};

type Item<'a> = Result<StructuredArgument<'a>, ParseError<'a>>;

fn run<'a>(parser: &'a Parser<'a>, args: &'a [&'a str]) -> Vec<Item<'a>> {
    let mut parse = parser.parse(args);
    let mut out = Vec::new();
    while let Some(item) = parse.next() {
        out.push(item);
    }
    assert_eq!(parse.next(), None);
    assert_eq!(parse.next(), None);
    assert_eq!(parser.parse(args).collect(), out);
    out
}

fn full_parser<'a>() -> Parser<'a> {
    let mut parser = Parser::new();
    parser.define_single(Arg::positional("foo").add_help("A single argument.")).unwrap();
    parser
        .define(&[
            Arg::required_trail("foobar"),
            Arg::named_and_short("help", 'h').interrupt(),
            Arg::named("version").interrupt(),
            Arg::named_and_short("verbose", 'v').switch(),
            Arg::named_and_short("exclude", 'x').single().add_param("item"),
            Arg::named_and_short("extra", 'e').zero_or_more(),
            Arg::named_and_short("add", 'a').one_or_more().add_param("number"),
            Arg::named("").passalong().add_param("args"),
        ])
        .unwrap();
    parser
}

fn positional<'a>(name: &'a str, value: &'a str) -> Item<'a> {
    Ok(StructuredArgument::Positional { name, value })
}

fn switch<'a>(name: &'a str) -> Item<'a> {
    Ok(StructuredArgument::Switch { name })
}

fn trail<'a>(values: &[&'a str]) -> Item<'a> {
    Ok(StructuredArgument::Trail { values: values.to_vec() })
}

#[test]
fn exactly_as_many_values_as_positions_misses_the_required_trail() {
    let mut parser = Parser::new();
    parser.define_single(Arg::positional("one")).unwrap();
    parser.define_single(Arg::positional("two")).unwrap();
    parser.define_single(Arg::required_trail("rest")).unwrap();
    let args = ["a", "b"];
    assert_eq!(
        run(&parser, &args),
        vec![
            positional("one", "a"),
            positional("two", "b"),
            Err(ParseError::MissingTrail { arg: "rest" }),
        ]
    );
}

#[test]
fn one_value_more_than_positions_makes_a_trail_of_one() {
    let mut parser = Parser::new();
    parser.define_single(Arg::positional("one")).unwrap();
    parser.define_single(Arg::positional("two")).unwrap();
    parser.define_single(Arg::required_trail("rest")).unwrap();
    let args = ["a", "b", "c"];
    assert_eq!(
        run(&parser, &args),
        vec![positional("one", "a"), positional("two", "b"), trail(&["c"])]
    );
}

#[test]
fn required_trail_without_positions_needs_one_value() {
    let mut parser = Parser::new();
    parser.define_single(Arg::required_trail("rest")).unwrap();
    assert_eq!(run(&parser, &[]), vec![Err(ParseError::MissingTrail { arg: "rest" })]);
    let args = ["a"];
    assert_eq!(run(&parser, &args), vec![trail(&["a"])]);
}

#[test]
fn optional_trail_is_yielded_even_when_it_is_empty() {
    let mut parser = Parser::new();
    parser.define_single(Arg::positional("one")).unwrap();
    parser.define_single(Arg::optional_trail("rest")).unwrap();
    let args = ["a"];
    assert_eq!(run(&parser, &args), vec![positional("one", "a"), trail(&[])]);
}

#[test]
fn no_trail_item_without_a_declared_trail() {
    let mut parser = Parser::new();
    parser.define_single(Arg::positional("one")).unwrap();
    let args = ["a"];
    assert_eq!(run(&parser, &args), vec![positional("one", "a")]);
}

#[test]
fn empty_input_on_an_empty_parser_yields_nothing() {
    let parser = Parser::new();
    assert_eq!(run(&parser, &[]), vec![]);
}

#[test]
fn grouped_switches_come_out_in_order() {
    let mut parser = Parser::new();
    parser.define_single(Arg::named_and_short("alpha", 'a').switch()).unwrap();
    parser.define_single(Arg::named_and_short("beta", 'b').switch()).unwrap();
    parser.define_single(Arg::named_and_short("gamma", 'c').switch()).unwrap();
    let args = ["-abc"];
    assert_eq!(run(&parser, &args), vec![switch("alpha"), switch("beta"), switch("gamma")]);
    let args = ["-cab"];
    assert_eq!(run(&parser, &args), vec![switch("gamma"), switch("alpha"), switch("beta")]);
}

#[test]
fn group_advances_the_cursor_by_one_token() {
    let mut parser = Parser::new();
    parser.define_single(Arg::positional("foo")).unwrap();
    parser.define_single(Arg::named_and_short("alpha", 'a').switch()).unwrap();
    parser.define_single(Arg::named_and_short("beta", 'b').switch()).unwrap();
    let args = ["-ab", "x"];
    let mut parse = parser.parse(&args);
    assert_eq!(parse.remaining_args(), &["-ab", "x"]);
    assert_eq!(parse.next(), Some(switch("alpha")));
    assert_eq!(parse.remaining_args(), &["x"]);
    assert_eq!(parse.next(), Some(switch("beta")));
    assert_eq!(parse.remaining_args(), &["x"]);
    assert_eq!(parse.next(), Some(positional("foo", "x")));
    assert_eq!(parse.remaining_args(), &[] as &[&str]);
    assert_eq!(parse.next(), None);
}

#[test]
fn group_with_an_option_that_takes_values_is_refused() {
    let mut parser = Parser::new();
    parser.define_single(Arg::named_and_short("alpha", 'a').switch()).unwrap();
    parser.define_single(Arg::named_and_short("beta", 'b').one_or_more()).unwrap();
    parser.define_single(Arg::named_and_short("gamma", 'c').switch()).unwrap();
    let args = ["-abc", "value"];
    assert_eq!(
        run(&parser, &args),
        vec![Err(ParseError::GroupedNonSwitch { arg: "-abc", invalid: "-b".to_string() })]
    );
}

#[test]
fn group_with_an_interrupt_or_a_single_option_is_refused() {
    let parser = full_parser();
    let args = ["-vh"];
    assert_eq!(
        run(&parser, &args),
        vec![Err(ParseError::GroupedNonSwitch { arg: "-vh", invalid: "-h".to_string() })]
    );
    let args = ["-xv", "item"];
    assert_eq!(
        run(&parser, &args),
        vec![Err(ParseError::GroupedNonSwitch { arg: "-xv", invalid: "-x".to_string() })]
    );
}

#[test]
fn group_with_an_unknown_letter_is_an_unknown_argument() {
    let parser = full_parser();
    let args = ["-vq"];
    assert_eq!(
        run(&parser, &args),
        vec![Err(ParseError::UnknownOptionalArgument { arg: "-vq" })]
    );
}

#[test]
fn group_that_repeats_a_switch_is_a_duplicate() {
    let parser = full_parser();
    let args = ["-vv"];
    assert_eq!(run(&parser, &args), vec![Err(ParseError::DuplicateArgument { arg: "-vv" })]);
    let args = ["--verbose", "-vv"];
    assert_eq!(
        run(&parser, &args),
        vec![switch("verbose"), Err(ParseError::DuplicateArgument { arg: "-vv" })]
    );
}

#[test]
fn first_bad_letter_of_a_group_decides_the_error() {
    let parser = full_parser();
    let args = ["-qx"];
    assert_eq!(
        run(&parser, &args),
        vec![Err(ParseError::UnknownOptionalArgument { arg: "-qx" })]
    );
    let args = ["-xq"];
    assert_eq!(
        run(&parser, &args),
        vec![Err(ParseError::GroupedNonSwitch { arg: "-xq", invalid: "-x".to_string() })]
    );
}

#[test]
fn interrupt_overrides_an_unknown_flag_before_it() {
    let mut parser = Parser::new();
    parser.define_single(Arg::named("help").interrupt()).unwrap();
    let args = ["--bogus", "--help"];
    assert_eq!(run(&parser, &args), vec![Ok(StructuredArgument::Interrupt { name: "help" })]);
}

#[test]
fn interrupt_overrides_everything_wherever_it_stands() {
    let parser = full_parser();
    let interrupted = vec![Ok(StructuredArgument::Interrupt { name: "help" })];
    let args = ["-h"];
    assert_eq!(run(&parser, &args), interrupted);
    let args = ["a", "b", "c", "--exclude", "--help"];
    assert_eq!(run(&parser, &args), interrupted);
    let args = ["--help", "-q", "-vv"];
    assert_eq!(run(&parser, &args), interrupted);
    let args = ["--", "-h"];
    assert_eq!(run(&parser, &args), interrupted);
}

#[test]
fn first_of_two_interrupts_is_yielded() {
    let parser = full_parser();
    let args = ["x", "--version", "-h"];
    assert_eq!(
        run(&parser, &args),
        vec![Ok(StructuredArgument::Interrupt { name: "version" })]
    );
}

#[test]
fn pass_along_takes_the_rest_verbatim() {
    let mut parser = Parser::new();
    parser.define_single(Arg::positional("foo")).unwrap();
    parser.define_single(Arg::named("").passalong()).unwrap();
    let args = ["x", "--", "-y", "z"];
    let rest: &[&str] = &["-y", "z"];
    assert_eq!(
        run(&parser, &args),
        vec![positional("foo", "x"), Ok(StructuredArgument::PassAlong { name: "", args: rest })]
    );
}

#[test]
fn pass_along_at_the_end_takes_nothing() {
    let mut parser = Parser::new();
    parser.define_single(Arg::named_and_short("rest", 'r').passalong()).unwrap();
    let args = ["-r"];
    let rest: &[&str] = &[];
    assert_eq!(
        run(&parser, &args),
        vec![Ok(StructuredArgument::PassAlong { name: "rest", args: rest })]
    );
}

#[test]
fn trail_comes_last_behind_a_pass_along() {
    let mut parser = Parser::new();
    parser.define_single(Arg::positional("foo")).unwrap();
    parser.define_single(Arg::optional_trail("rest")).unwrap();
    parser.define_single(Arg::named("").passalong()).unwrap();
    let args = ["x", "y", "--", "-z", "--", "w"];
    let passed: &[&str] = &["-z", "--", "w"];
    assert_eq!(
        run(&parser, &args),
        vec![
            positional("foo", "x"),
            Ok(StructuredArgument::PassAlong { name: "", args: passed }),
            trail(&["y"]),
        ]
    );
}

#[test]
fn missing_position_is_reported_behind_a_pass_along() {
    let mut parser = Parser::new();
    parser.define_single(Arg::positional("foo")).unwrap();
    parser.define_single(Arg::named("").passalong()).unwrap();
    let args = ["--", "x"];
    let passed: &[&str] = &["x"];
    assert_eq!(
        run(&parser, &args),
        vec![
            Ok(StructuredArgument::PassAlong { name: "", args: passed }),
            Err(ParseError::MissingPositionalArgument { arg: "foo" }),
        ]
    );
}

#[test]
fn remaining_args_behind_a_pass_along_are_the_passed_ones() {
    let mut parser = Parser::new();
    parser.define_single(Arg::named("").passalong()).unwrap();
    let args = ["--", "a", "-b"];
    let mut parse = parser.parse(&args);
    assert!(parse.next().is_some());
    assert_eq!(parse.remaining_args(), &["a", "-b"]);
    assert_eq!(parse.next(), None);
}

#[test]
fn zero_or_more_option_gives_back_its_values_in_order() {
    let mut parser = Parser::new();
    parser.define_single(Arg::named_and_short("extra", 'e').zero_or_more()).unwrap();
    let args = ["-e", "a", "b", "c"];
    let items = run(&parser, &args);
    let values: &[&str] = &["a", "b", "c"];
    assert_eq!(
        items,
        vec![Ok(StructuredArgument::Multiple { name: "extra", parameters: values })]
    );
    match &items[0] {
        Ok(StructuredArgument::Multiple { parameters, .. }) => {
            assert_eq!(parameters.to_vec(), vec!["a", "b", "c"]);
        }
        _ => unreachable!(),
    }
}

#[test]
fn zero_or_more_option_may_have_no_value() {
    let parser = full_parser();
    let none: &[&str] = &[];
    let args = ["x", "y", "--extra"];
    assert_eq!(
        run(&parser, &args),
        vec![
            positional("foo", "x"),
            Ok(StructuredArgument::Multiple { name: "extra", parameters: none }),
            trail(&["y"]),
        ]
    );
    let args = ["x", "y", "-e", "-v"];
    assert_eq!(
        run(&parser, &args),
        vec![
            positional("foo", "x"),
            Ok(StructuredArgument::Multiple { name: "extra", parameters: none }),
            switch("verbose"),
            trail(&["y"]),
        ]
    );
}

#[test]
fn run_of_values_stops_at_the_first_token_that_looks_like_a_flag() {
    let parser = full_parser();
    let values: &[&str] = &["1", "2"];
    let args = ["x", "y", "-a", "1", "2", "-v", "3"];
    assert_eq!(
        run(&parser, &args),
        vec![
            positional("foo", "x"),
            Ok(StructuredArgument::Multiple { name: "add", parameters: values }),
            switch("verbose"),
            trail(&["y", "3"]),
        ]
    );
    let one: &[&str] = &["a"];
    let args = ["-e", "a", "-q", "b"];
    assert_eq!(
        run(&parser, &args),
        vec![
            Ok(StructuredArgument::Multiple { name: "extra", parameters: one }),
            Err(ParseError::UnknownOptionalArgument { arg: "-q" }),
        ]
    );
}

#[test]
fn lone_dash_is_taken_as_a_value() {
    let parser = full_parser();
    let values: &[&str] = &["-", "1"];
    let args = ["-", "-a", "-", "1", "--", "q"];
    let passed: &[&str] = &["q"];
    assert_eq!(
        run(&parser, &args),
        vec![
            positional("foo", "-"),
            Ok(StructuredArgument::Multiple { name: "add", parameters: values }),
            Ok(StructuredArgument::PassAlong { name: "", args: passed }),
            Err(ParseError::MissingTrail { arg: "foobar" }),
        ]
    );
}

#[test]
fn single_option_takes_the_next_value() {
    let parser = full_parser();
    let args = ["-x", "item", "a", "b"];
    assert_eq!(
        run(&parser, &args),
        vec![
            Ok(StructuredArgument::Single { name: "exclude", parameter: "item" }),
            positional("foo", "a"),
            trail(&["b"]),
        ]
    );
}

#[test]
fn single_option_followed_by_a_flag_misses_its_parameter() {
    let parser = full_parser();
    let args = ["--exclude", "--verbose"];
    assert_eq!(
        run(&parser, &args),
        vec![Err(ParseError::MissingParameter { arg: "--exclude" })]
    );
}

#[test]
fn single_option_at_the_end_misses_its_parameter() {
    let parser = full_parser();
    let args = ["a", "b", "-x"];
    assert_eq!(
        run(&parser, &args),
        vec![positional("foo", "a"), Err(ParseError::MissingParameter { arg: "-x" })]
    );
}

#[test]
fn one_or_more_option_without_a_value_misses_its_parameter() {
    let parser = full_parser();
    let args = ["--add"];
    assert_eq!(run(&parser, &args), vec![Err(ParseError::MissingParameter { arg: "--add" })]);
    let args = ["-a", "-v", "1"];
    assert_eq!(run(&parser, &args), vec![Err(ParseError::MissingParameter { arg: "-a" })]);
}

#[test]
fn unknown_flag_is_an_error() {
    let parser = full_parser();
    let args = ["a", "--bogus", "b"];
    assert_eq!(
        run(&parser, &args),
        vec![positional("foo", "a"), Err(ParseError::UnknownOptionalArgument { arg: "--bogus" })]
    );
    let args = ["-q"];
    assert_eq!(run(&parser, &args), vec![Err(ParseError::UnknownOptionalArgument { arg: "-q" })]);
}

#[test]
fn bare_double_dash_is_unknown_unless_it_is_declared() {
    let mut parser = Parser::new();
    parser.define_single(Arg::optional_trail("rest")).unwrap();
    let args = ["a", "--", "b"];
    assert_eq!(
        run(&parser, &args),
        vec![Err(ParseError::UnknownOptionalArgument { arg: "--" })]
    );
}

#[test]
fn missing_positional_names_the_first_open_position() {
    let mut parser = Parser::new();
    parser.define_single(Arg::positional("one")).unwrap();
    parser.define_single(Arg::positional("two")).unwrap();
    parser.define_single(Arg::positional("three")).unwrap();
    parser.define_single(Arg::named("verbose").switch()).unwrap();
    assert_eq!(
        run(&parser, &[]),
        vec![Err(ParseError::MissingPositionalArgument { arg: "one" })]
    );
    let args = ["a", "--verbose"];
    assert_eq!(
        run(&parser, &args),
        vec![
            positional("one", "a"),
            switch("verbose"),
            Err(ParseError::MissingPositionalArgument { arg: "two" }),
        ]
    );
}

#[test]
fn missing_positional_comes_before_a_missing_trail() {
    let parser = full_parser();
    assert_eq!(
        run(&parser, &[]),
        vec![Err(ParseError::MissingPositionalArgument { arg: "foo" })]
    );
}

#[test]
fn option_given_twice_is_a_duplicate() {
    let parser = full_parser();
    let args = ["-v", "--verbose"];
    assert_eq!(
        run(&parser, &args),
        vec![switch("verbose"), Err(ParseError::DuplicateArgument { arg: "--verbose" })]
    );
    let args = ["-x", "1", "a", "-x", "2"];
    assert_eq!(
        run(&parser, &args),
        vec![
            Ok(StructuredArgument::Single { name: "exclude", parameter: "1" }),
            positional("foo", "a"),
            Err(ParseError::DuplicateArgument { arg: "-x" }),
        ]
    );
}

#[test]
fn value_without_a_position_or_a_trail_is_unexpected() {
    let mut parser = Parser::new();
    parser.define_single(Arg::positional("one")).unwrap();
    let args = ["a", "b", "c"];
    assert_eq!(
        run(&parser, &args),
        vec![positional("one", "a"), Err(ParseError::UnexpectedArgument { arg: "b" })]
    );
}

#[test]
fn nothing_is_yielded_behind_an_error() {
    let parser = full_parser();
    let args = ["-q", "a", "b", "-v"];
    let mut parse = parser.parse(&args);
    assert_eq!(parse.next(), Some(Err(ParseError::UnknownOptionalArgument { arg: "-q" })));
    assert_eq!(parse.next(), None);
    assert_eq!(parse.next(), None);
}

#[test]
fn values_around_flags_fill_the_positions_and_then_the_trail() {
    let parser = full_parser();
    let args = ["a", "b", "-v", "c"];
    assert_eq!(
        run(&parser, &args),
        vec![positional("foo", "a"), switch("verbose"), trail(&["b", "c"])]
    );
    let args = ["-v", "a", "b"];
    assert_eq!(
        run(&parser, &args),
        vec![switch("verbose"), positional("foo", "a"), trail(&["b"])]
    );
}

#[test]
fn parsing_twice_yields_the_same() {
    let parser = full_parser();
    let args = ["a", "-vx", "b"];
    assert_eq!(run(&parser, &args), run(&parser, &args));
    let args = ["a", "b", "-e", "1", "2", "--add", "3", "--", "-h"];
    assert_eq!(run(&parser, &args), run(&parser, &args));
    let args = ["a", "b", "-e", "1", "2", "--add", "3", "-x", "4", "-v", "c"];
    let first = parser.parse(&args).collect();
    let second = parser.parse(&args).collect();
    assert_eq!(first, second);
    assert_eq!(first.len(), 6);
}

#[test]
fn every_kind_of_argument_in_one_command_line() {
    let parser = full_parser();
    let args = ["a", "b", "-e", "1", "2", "--add", "3", "-x", "4", "-v", "c", "--", "-h2", "d"];
    let extra: &[&str] = &["1", "2"];
    let add: &[&str] = &["3"];
    let passed: &[&str] = &["-h2", "d"];
    assert_eq!(
        run(&parser, &args),
        vec![
            positional("foo", "a"),
            Ok(StructuredArgument::Multiple { name: "extra", parameters: extra }),
            Ok(StructuredArgument::Multiple { name: "add", parameters: add }),
            Ok(StructuredArgument::Single { name: "exclude", parameter: "4" }),
            switch("verbose"),
            Ok(StructuredArgument::PassAlong { name: "", args: passed }),
            trail(&["b", "c"]),
        ]
    );
}

#[test]
fn collect_gives_what_is_left_of_a_parse() {
    let parser = full_parser();
    let args = ["a", "-v", "b"];
    let mut parse = parser.parse(&args);
    assert_eq!(parse.next(), Some(positional("foo", "a")));
    assert_eq!(parse.collect(), vec![switch("verbose"), trail(&["b"])]);
}

#[test]
fn outcome_of_a_parse_that_goes_through_holds_its_arguments() {
    let parser = full_parser();
    let args = ["a", "-v", "b"];
    assert_eq!(
        parser.parse(&args).outcome(),
        ParseOutcome::Structured(vec![
            StructuredArgument::Positional { name: "foo", value: "a" },
            StructuredArgument::Switch { name: "verbose" },
            StructuredArgument::Trail { values: vec!["b"] },
        ])
    );
    let nothing = Parser::new();
    assert_eq!(nothing.parse(&[]).outcome(), ParseOutcome::Structured(vec![]));
}

#[test]
fn outcome_of_an_interrupted_parse_is_the_interrupt() {
    let parser = full_parser();
    let args = ["--bogus", "--help"];
    assert_eq!(parser.parse(&args).outcome(), ParseOutcome::Interrupted("help"));
    let args = ["a", "b", "--version"];
    assert_eq!(parser.parse(&args).outcome(), ParseOutcome::Interrupted("version"));
}

#[test]
fn outcome_of_a_failed_parse_is_its_error() {
    let parser = full_parser();
    let args = ["a", "-v", "--bogus"];
    assert_eq!(
        parser.parse(&args).outcome(),
        ParseOutcome::Failed(ParseError::UnknownOptionalArgument { arg: "--bogus" })
    );
    let args = ["a"];
    assert_eq!(
        parser.parse(&args).outcome(),
        ParseOutcome::Failed(ParseError::MissingTrail { arg: "foobar" })
    );
}
