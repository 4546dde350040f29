use argonaut::{
    internal_get_definitions, Arg, ArgType, DefineError, FlagName, OptName, Parser,
};

#[test]
fn new_parser_holds_no_definition() {
    let parser = Parser::new();
    assert!(internal_get_definitions(&parser).is_empty());
    assert_eq!(parser.lookup(&FlagName::Long("help")), None);
}

#[test]
fn definitions_are_kept_in_the_order_of_definition() {
    let mut parser = Parser::new();
    let foo = Arg::positional("foo").add_help("A single argument.");
    let help = Arg::named_and_short("help", 'h').interrupt();
    let rest = Arg::optional_trail("rest");
    assert_eq!(parser.define_single(foo), Ok(()));
    assert_eq!(parser.define_single(help), Ok(()));
    assert_eq!(parser.define_single(rest), Ok(()));
    assert_eq!(internal_get_definitions(&parser), &vec![foo, help, rest]);
}

#[test]
fn every_spelling_resolves_to_its_option() {
    let mut parser = Parser::new();
    parser.define_single(Arg::named_and_short("verbose", 'v').switch()).unwrap();
    parser.define_single(Arg::named("exclude").single()).unwrap();
    let verbose = Some(ArgType::Switch(OptName::NormalAndShort("verbose", 'v')));
    assert_eq!(parser.lookup(&FlagName::Short('v')), verbose);
    assert_eq!(parser.lookup(&FlagName::Long("verbose")), verbose);
    assert_eq!(
        parser.lookup(&FlagName::Long("exclude")),
        Some(ArgType::OptSingle(OptName::Normal("exclude")))
    );
    assert_eq!(parser.lookup(&FlagName::Short('e')), None);
    assert_eq!(parser.lookup(&FlagName::Long("v")), None);
}

#[test]
fn shared_long_spelling_is_refused_in_either_order() {
    let first = Arg::named("level").single();
    let second = Arg::named_and_short("level", 'l').switch();

    let mut parser = Parser::new();
    assert_eq!(parser.define_single(first), Ok(()));
    assert_eq!(
        parser.define_single(second),
        Err(DefineError::FlagAlreadyDefined(FlagName::Long("level")).message())
    );
    assert_eq!(internal_get_definitions(&parser), &vec![first]);

    let mut parser = Parser::new();
    assert_eq!(parser.define_single(second), Ok(()));
    assert_eq!(
        parser.define_single(first),
        Err(DefineError::FlagAlreadyDefined(FlagName::Long("level")).message())
    );
    assert_eq!(internal_get_definitions(&parser), &vec![second]);
}

#[test]
fn shared_short_spelling_is_refused_in_either_order() {
    let first = Arg::named_and_short("verbose", 'v').switch();
    let second = Arg::named_and_short("version", 'v').interrupt();

    let mut parser = Parser::new();
    assert_eq!(parser.define_single(first), Ok(()));
    assert_eq!(
        parser.define_single(second),
        Err(DefineError::FlagAlreadyDefined(FlagName::Short('v')).message())
    );

    let mut parser = Parser::new();
    assert_eq!(parser.define_single(second), Ok(()));
    assert_eq!(
        parser.define_single(first),
        Err(DefineError::FlagAlreadyDefined(FlagName::Short('v')).message())
    );
}

#[test]
fn short_spelling_is_reported_before_the_long_one() {
    let mut parser = Parser::new();
    parser.define_single(Arg::named_and_short("add", 'a').one_or_more()).unwrap();
    assert_eq!(
        parser.define_single(Arg::named_and_short("add", 'a').switch()),
        Err(DefineError::FlagAlreadyDefined(FlagName::Short('a')).message())
    );
}

#[test]
fn same_long_word_with_another_short_letter_is_refused() {
    let mut parser = Parser::new();
    parser.define_single(Arg::named_and_short("add", 'a').one_or_more()).unwrap();
    assert_eq!(
        parser.define_single(Arg::named_and_short("add", 'b').one_or_more()),
        Err(DefineError::FlagAlreadyDefined(FlagName::Long("add")).message())
    );
}

#[test]
fn short_letter_and_long_word_of_one_character_are_different_spellings() {
    let mut parser = Parser::new();
    parser.define_single(Arg::named_and_short("verbose", 'v').switch()).unwrap();
    assert_eq!(parser.define_single(Arg::named("v").switch()), Ok(()));
}

#[test]
fn second_positional_of_one_name_is_refused() {
    let mut parser = Parser::new();
    parser.define_single(Arg::positional("foo")).unwrap();
    parser.define_single(Arg::positional("bar")).unwrap();
    assert_eq!(
        parser.define_single(Arg::positional("foo")),
        Err(DefineError::PositionalAlreadyDefined("foo").message())
    );
    assert_eq!(internal_get_definitions(&parser).len(), 2);
}

#[test]
fn second_trail_is_refused() {
    let mut parser = Parser::new();
    parser.define_single(Arg::optional_trail("rest")).unwrap();
    assert_eq!(
        parser.define_single(Arg::required_trail("more")),
        Err(DefineError::TrailAlreadySet.message())
    );
    assert_eq!(
        parser.define_single(Arg::optional_trail("rest")),
        Err(DefineError::TrailAlreadySet.message())
    );
    assert_eq!(internal_get_definitions(&parser).len(), 1);
}

#[test]
fn positional_behind_the_trail_is_refused() {
    let mut parser = Parser::new();
    parser.define_single(Arg::positional("foo")).unwrap();
    parser.define_single(Arg::required_trail("rest")).unwrap();
    assert_eq!(
        parser.define_single(Arg::positional("bar")),
        Err(DefineError::PositionalAfterTrail("bar").message())
    );
    assert_eq!(internal_get_definitions(&parser).len(), 2);
}

#[test]
fn positional_of_a_taken_name_behind_the_trail_is_a_duplicate() {
    let mut parser = Parser::new();
    parser.define_single(Arg::positional("foo")).unwrap();
    parser.define_single(Arg::required_trail("rest")).unwrap();
    assert_eq!(
        parser.define_single(Arg::positional("foo")),
        Err(DefineError::PositionalAlreadyDefined("foo").message())
    );
}

#[test]
fn options_may_be_defined_behind_the_trail() {
    let mut parser = Parser::new();
    parser.define_single(Arg::required_trail("rest")).unwrap();
    assert_eq!(parser.define_single(Arg::named("verbose").switch()), Ok(()));
}

#[test]
fn positional_and_option_may_share_a_word() {
    let mut parser = Parser::new();
    parser.define_single(Arg::positional("input")).unwrap();
    assert_eq!(parser.define_single(Arg::named("input").single()), Ok(()));
    assert_eq!(parser.define_single(Arg::optional_trail("input")), Ok(()));
}

#[test]
fn define_adds_every_definition_in_order() {
    let mut parser = Parser::new();
    let args = [
        Arg::positional("foo"),
        Arg::named_and_short("help", 'h').interrupt(),
        Arg::required_trail("rest"),
    ];
    assert_eq!(parser.define(&args), Ok(()));
    assert_eq!(internal_get_definitions(&parser), &args.to_vec());
}

#[test]
fn define_stops_at_the_first_refusal_and_keeps_what_came_before() {
    let mut parser = Parser::new();
    let args = [
        Arg::positional("foo"),
        Arg::named_and_short("help", 'h').interrupt(),
        Arg::named("help").switch(),
        Arg::named("never").switch(),
    ];
    assert_eq!(
        parser.define(&args),
        Err(DefineError::FlagAlreadyDefined(FlagName::Long("help")).message())
    );
    assert_eq!(internal_get_definitions(&parser), &args[..2].to_vec());
    assert_eq!(parser.lookup(&FlagName::Long("never")), None);
}

#[test]
fn define_of_nothing_changes_nothing() {
    let mut parser = Parser::new();
    assert_eq!(parser.define(&[]), Ok(()));
    assert!(internal_get_definitions(&parser).is_empty());
}

#[test]
fn check_tells_why_a_definition_would_be_refused() {
    let mut parser = Parser::new();
    parser.define_single(Arg::positional("foo")).unwrap();
    parser.define_single(Arg::named_and_short("verbose", 'v').switch()).unwrap();
    assert_eq!(parser.check(&Arg::positional("bar")), None);
    assert_eq!(parser.check(&Arg::named("quiet").switch()), None);
    assert_eq!(
        parser.check(&Arg::positional("foo")),
        Some(DefineError::PositionalAlreadyDefined("foo"))
    );
    assert_eq!(
        parser.check(&Arg::named_and_short("version", 'v').interrupt()),
        Some(DefineError::FlagAlreadyDefined(FlagName::Short('v')))
    );
    assert_eq!(
        parser.check(&Arg::named("verbose").single()),
        Some(DefineError::FlagAlreadyDefined(FlagName::Long("verbose")))
    );
    assert_eq!(parser.check(&Arg::optional_trail("rest")), None);
    parser.define_single(Arg::optional_trail("rest")).unwrap();
    assert_eq!(parser.check(&Arg::required_trail("more")), Some(DefineError::TrailAlreadySet));
    assert_eq!(
        parser.check(&Arg::positional("bar")),
        Some(DefineError::PositionalAfterTrail("bar"))
    );
    assert_eq!(internal_get_definitions(&parser).len(), 3);
}

#[test]
fn refusal_is_said_in_words() {
    let mut parser = Parser::new();
    parser.define_single(Arg::named_and_short("verbose", 'v').switch()).unwrap();
    assert_eq!(
        parser.define_single(Arg::named_and_short("version", 'v').interrupt()),
        Err("The flag '-v' is already defined".to_string())
    );
    assert_eq!(
        parser.define_single(Arg::named("verbose").interrupt()),
        Err("The flag '--verbose' is already defined".to_string())
    );
    parser.define_single(Arg::positional("foo")).unwrap();
    assert_eq!(
        parser.define_single(Arg::positional("foo")),
        Err("A positional argument with the name 'foo' has already been added".to_string())
    );
    parser.define_single(Arg::required_trail("rest")).unwrap();
    assert_eq!(
        parser.define_single(Arg::optional_trail("rest")),
        Err("A trailing argument has already been set".to_string())
    );
}
