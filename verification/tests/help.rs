use argonaut::{align_lines, argument_cells, generate_help, pad_text, Arg, ArgType, OptName, Parser};

fn strings(cells: &[&str]) -> Vec<String> {
    cells.iter().map(|cell| cell.to_string()).collect()
}

fn parser_of<'a>(args: &[Arg<'a>]) -> Parser<'a> {
    let mut parser = Parser::new();
    parser.define(args).unwrap();
    parser
}

#[test]
fn help_of_an_empty_parser_is_empty() {
    assert_eq!(generate_help(&Parser::new()), "");
}

#[test]
fn help_shows_every_section_in_order() {
    let parser = parser_of(&[
        Arg::positional("foo").add_help("A single argument."),
        Arg::required_trail("foobar").add_help("One or more trailing arguments."),
        Arg::named_and_short("help", 'h')
            .interrupt()
            .add_help("Prints a help message for this tool and exits."),
        Arg::named("version").interrupt().add_help("Prints the version of this tool and exits."),
        Arg::named_and_short("verbose", 'v')
            .switch()
            .add_help("A switch (present or non-present)"),
        Arg::named_and_short("exclude", 'x')
            .single()
            .add_param("item")
            .add_help("A single argument."),
        Arg::named_and_short("extra", 'e').zero_or_more().add_help("Zero or more arguments."),
        Arg::named_and_short("add", 'a')
            .one_or_more()
            .add_param("number")
            .add_help("One or more arguments."),
        Arg::named("")
            .passalong()
            .add_param("args")
            .add_help("Collect the remaining arguments after this one."),
    ]);
    let expected = [
        "Required arguments:",
        "  foo                    A single argument.",
        "  foobar [foobar, ..]    One or more trailing arguments.",
        "",
        "Interrupts:",
        "  --help    | -h    Prints a help message for this tool and exits.",
        "  --version         Prints the version of this tool and exits.    ",
        "",
        "Optional arguments:",
        "  --verbose | -v                        A switch (present or non-present)",
        "  --exclude | -x item                   A single argument.               ",
        "  --extra   | -e [EXTRA, ..]            Zero or more arguments.          ",
        "  --add     | -a number [number, ..]    One or more arguments.           ",
        "",
        "Pass-alongs:",
        "  --args...    Collect the remaining arguments after this one.",
    ];
    assert_eq!(generate_help(&parser), expected.join("\n"));
}

#[test]
fn help_groups_by_section_whatever_the_order_of_definition() {
    let parser = parser_of(&[
        Arg::named("").passalong(),
        Arg::positional("in").add_help("Input."),
    ]);
    assert_eq!(
        generate_help(&parser),
        "Required arguments:\n  in    Input.\n\nPass-alongs:\n  --...    "
    );
}

#[test]
fn help_of_options_with_a_long_name_alone() {
    let parser = parser_of(&[
        Arg::named("level").single().add_help("Sets the level."),
        Arg::named("tag").zero_or_more().add_param("t"),
        Arg::named("id").one_or_more().add_help("Ids."),
        Arg::named("quiet").switch(),
    ]);
    let expected = [
        "Optional arguments:",
        "  --levelLEVEL        Sets the level.",
        "  --tag[t, ..]                       ",
        "  --id ID [ID, ..]    Ids.           ",
        "  --quiet                            ",
    ];
    assert_eq!(generate_help(&parser), expected.join("\n"));
}

#[test]
fn help_of_pass_alongs() {
    let parser = parser_of(&[
        Arg::named_and_short("rest", 'r').passalong().add_help("Rest."),
        Arg::named("more").passalong(),
    ]);
    let expected = [
        "Pass-alongs:",
        "  --rest        | -r REST...    Rest.",
        "  --moreMORE...                      ",
    ];
    assert_eq!(generate_help(&parser), expected.join("\n"));
}

#[test]
fn help_of_interrupts_alone() {
    let parser = parser_of(&[Arg::named_and_short("help", 'h').interrupt().add_help("Help.")]);
    assert_eq!(generate_help(&parser), "Interrupts:\n  --help | -h    Help.");
}

#[test]
fn help_measures_columns_in_bytes() {
    let parser = parser_of(&[
        Arg::positional("é").add_help("x"),
        Arg::positional("ab").add_help("y"),
        Arg::positional("abc"),
        Arg::optional_trail("files").add_help("Files."),
    ]);
    let expected = [
        "Required arguments:",
        "  é             x",
        "  ab             y",
        "  abc            ",
        "  [files, ..]    Files.",
    ];
    assert_eq!(generate_help(&parser), expected.join("\n"));
}

#[test]
fn help_keeps_a_help_text_of_several_lines_as_it_is() {
    let parser = parser_of(&[
        Arg::named_and_short("a", 'b').switch().add_help("one\ntwo"),
        Arg::named("long-name").switch(),
    ]);
    assert_eq!(
        generate_help(&parser),
        "Optional arguments:\n  --a         | -b    one\ntwo\n  --long-name                "
    );
}

#[test]
fn pad_text_fills_up_to_the_width() {
    let mut text = String::from("ab");
    pad_text(&mut text, 5, ' ');
    assert_eq!(text, "ab   ");
    pad_text(&mut text, 5, '.');
    assert_eq!(text, "ab   ");
    pad_text(&mut text, 3, '.');
    assert_eq!(text, "ab   ");
    let mut empty = String::new();
    pad_text(&mut empty, 0, ' ');
    assert_eq!(empty, "");
    pad_text(&mut empty, 2, '-');
    assert_eq!(empty, "--");
}

#[test]
fn pad_text_may_pass_the_width_with_a_wide_character() {
    let mut text = String::from("a");
    pad_text(&mut text, 4, 'é');
    assert_eq!(text, "aéé");
    assert_eq!(text.len(), 5);
}

#[test]
fn align_lines_pads_each_column_to_its_widest_cell() {
    let mut lines = vec![
        strings(&["a", "bbb"]),
        strings(&["cc"]),
        strings(&[]),
        strings(&["d", "e", "f"]),
    ];
    align_lines(&mut lines, Some('.'));
    assert_eq!(
        lines,
        vec![
            strings(&["a.", "bbb"]),
            strings(&["cc"]),
            strings(&[]),
            strings(&["d.", "e..", "f"]),
        ]
    );
}

#[test]
fn align_lines_pads_with_spaces_by_default() {
    let mut lines = vec![strings(&["--help", "|", "-h"]), strings(&["--version"])];
    align_lines(&mut lines, None);
    assert_eq!(lines, vec![strings(&["--help   ", "|", "-h"]), strings(&["--version"])]);
    let mut none: Vec<Vec<String>> = Vec::new();
    align_lines(&mut none, None);
    assert!(none.is_empty());
}

#[test]
fn cells_of_positional_arguments_and_trails() {
    assert_eq!(argument_cells(ArgType::Single("foo"), "P"), strings(&["foo"]));
    assert_eq!(argument_cells(ArgType::ZeroPlus("foo"), "P"), strings(&["[foo, ..]"]));
    assert_eq!(argument_cells(ArgType::OnePlus("foo"), "P"), strings(&["foo [foo, ..]"]));
}

#[test]
fn cells_of_options_with_a_long_name_alone() {
    let name = OptName::Normal("opt");
    assert_eq!(argument_cells(ArgType::OptSingle(name), "P"), strings(&["--optP"]));
    assert_eq!(argument_cells(ArgType::OptZeroPlus(name), "P"), strings(&["--opt[P, ..]"]));
    assert_eq!(argument_cells(ArgType::OptOnePlus(name), "P"), strings(&["--opt P [P, ..]"]));
    assert_eq!(argument_cells(ArgType::Switch(name), "P"), strings(&["--opt"]));
    assert_eq!(argument_cells(ArgType::Interrupt(name), "P"), strings(&["--opt"]));
    assert_eq!(argument_cells(ArgType::PassAlong(name), "P"), strings(&["--optP..."]));
}

#[test]
fn cells_of_options_with_a_short_name_too() {
    let name = OptName::NormalAndShort("opt", 'o');
    assert_eq!(
        argument_cells(ArgType::OptSingle(name), "P"),
        strings(&["--opt", "|", "-o", "P"])
    );
    assert_eq!(
        argument_cells(ArgType::OptZeroPlus(name), "P"),
        strings(&["--opt", "|", "-o", "[P, ..]"])
    );
    assert_eq!(
        argument_cells(ArgType::OptOnePlus(name), "P"),
        strings(&["--opt", "|", "-o", "P [P, ..]"])
    );
    assert_eq!(argument_cells(ArgType::Switch(name), "P"), strings(&["--opt", "|", "-o"]));
    assert_eq!(argument_cells(ArgType::Interrupt(name), "P"), strings(&["--opt", "|", "-o"]));
    assert_eq!(
        argument_cells(ArgType::PassAlong(name), "P"),
        strings(&["--opt", "|", "-o", "P..."])
    );
}
