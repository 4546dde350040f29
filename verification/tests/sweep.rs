use argonaut::{Arg, ParseError, Parser, StructuredArgument};

const TOKENS: [&str; 9] = ["a", "b", "-", "-v", "-x", "-vw", "--", "--help", "-q"];

fn parser<'a>() -> Parser<'a> {
    let mut parser = Parser::new();
    parser
        .define(&[
            Arg::positional("first"),
            Arg::optional_trail("rest"),
            Arg::named_and_short("verbose", 'v').switch(),
            Arg::named_and_short("wide", 'w').switch(),
            Arg::named_and_short("exclude", 'x').one_or_more(),
            Arg::named("").passalong(),
        ])
        .unwrap();
    parser
}

fn sequences(len: usize) -> Vec<Vec<&'static str>> {
    let mut all: Vec<Vec<&'static str>> = vec![Vec::new()];
    for _ in 0..len {
        let mut longer = Vec::new();
        for shorter in &all {
            for token in TOKENS {
                let mut next = shorter.clone();
                next.push(token);
                longer.push(next);
            }
        }
        all = longer;
    }
    all
}

fn is_value(token: &str) -> bool {
    !token.starts_with('-') || token == "-"
}

#[test]
fn every_short_command_line_keeps_the_order_of_what_is_yielded() {
    let parser = parser();
    for len in 0..5 {
        for args in sequences(len) {
            let items = parser.parse(&args).collect();
            assert!(!items.is_empty(), "{:?}", args);
            for (at, item) in items.iter().enumerate() {
                let last = at + 1 == items.len();
                match item {
                    Err(_) => assert!(last, "{:?}", args),
                    Ok(StructuredArgument::Trail { .. }) => assert!(last, "{:?}", args),
                    Ok(StructuredArgument::Interrupt { .. }) => unreachable!(),
                    Ok(_) => assert!(!last, "{:?}", args),
                }
            }
        }
    }
}

#[test]
fn every_value_of_a_short_command_line_goes_somewhere() {
    let parser = parser();
    for len in 0..5 {
        for args in sequences(len) {
            let items = parser.parse(&args).collect();
            if items.iter().any(|item| item.is_err()) {
                continue;
            }
            let mut taken: Vec<&str> = Vec::new();
            let mut trail: Vec<&str> = Vec::new();
            let mut passed: Option<Vec<&str>> = None;
            for item in &items {
                match item {
                    Ok(StructuredArgument::Positional { name, value }) => {
                        assert_eq!(*name, "first");
                        taken.push(*value);
                    }
                    Ok(StructuredArgument::Multiple { name, parameters }) => {
                        assert_eq!(*name, "exclude");
                        assert!(!parameters.is_empty());
                        taken.extend(parameters.iter());
                    }
                    Ok(StructuredArgument::Trail { values }) => trail = values.clone(),
                    Ok(StructuredArgument::PassAlong { name, args }) => {
                        assert_eq!(*name, "");
                        passed = Some(args.to_vec());
                    }
                    Ok(StructuredArgument::Switch { name }) => {
                        assert!(*name == "verbose" || *name == "wide");
                    }
                    _ => unreachable!(),
                }
            }
            let scanned = match args.iter().position(|token| *token == "--") {
                Some(at) => {
                    assert_eq!(passed, Some(args[at + 1..].to_vec()));
                    &args[..at]
                }
                None => {
                    assert_eq!(passed, None);
                    &args[..]
                }
            };
            let mut given: Vec<&str> =
                scanned.iter().copied().filter(|token| is_value(token)).collect();
            let mut found: Vec<&str> = taken.iter().chain(trail.iter()).copied().collect();
            given.sort();
            found.sort();
            assert_eq!(given, found, "{:?}", args);
        }
    }
}

#[test]
fn every_short_command_line_parses_the_same_twice() {
    let parser = parser();
    for len in 0..5 {
        for args in sequences(len) {
            let first = parser.parse(&args).collect();
            let mut parse = parser.parse(&args);
            let mut second: Vec<Result<StructuredArgument, ParseError>> = Vec::new();
            while let Some(item) = parse.next() {
                second.push(item);
            }
            assert_eq!(first, second, "{:?}", args);
        }
    }
}
