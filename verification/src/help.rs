//! The help message of a parser: its arguments by section, one line each,
//! with the columns of a section aligned.
use crate::arg::{internal_get_raw, text_or_empty, Arg, ArgType, ArgumentDeclaration, ArgumentKind};
use crate::common::{OptName, OptionName};
use crate::parser::{declarations, internal_get_definitions, Parser};
use crate::registry::Registry;
use crate::text::{byte_len, lemma_byte_len_push, push_char, texts};
use vstd::prelude::*;
use vstd::string::*;

verus! {

/// The upper-case form of a text, as `str::to_uppercase` gives it. It
/// depends on the text alone; what it is for a given text is not stated.
pub uninterp spec fn uppercase(text: Seq<char>) -> Seq<char>;

/// How many bytes a text lacks to take `width` bytes.
pub open spec fn lacking(text: Seq<char>, width: nat) -> nat {
    if byte_len(text) < width {
        (width - byte_len(text)) as nat
    } else {
        0
    }
}

/// A text with the padding character put behind it until it takes at least
/// `width` bytes.
pub open spec fn padded(text: Seq<char>, width: nat, padding: char) -> Seq<char>
    decreases lacking(text, width),
{
    if byte_len(text) < width {
        proof {
            lemma_byte_len_push(text, padding);
        }
        padded(text.push(padding), width, padding)
    } else {
        text
    }
}

/// The width of a column: the greatest number of bytes that a cell of the
/// column takes, over the rows that reach the column.
pub open spec fn column_width(rows: Seq<Seq<Seq<char>>>, col: int) -> nat
    decreases rows.len(),
{
    if rows.len() == 0 {
        0
    } else {
        let above = column_width(rows.drop_last(), col);
        let row = rows.last();
        if 0 <= col < row.len() && byte_len(row[col]) > above {
            byte_len(row[col])
        } else {
            above
        }
    }
}

/// The rows with every cell padded to the width of its column.
pub open spec fn aligned(rows: Seq<Seq<Seq<char>>>, padding: char) -> Seq<Seq<Seq<char>>> {
    Seq::new(
        rows.len(),
        |r: int|
            Seq::new(
                rows[r].len(),
                |c: int| padded(rows[r][c], column_width(rows, c), padding),
            ),
    )
}

/// The cells of a row in a row, each with one space behind it.
pub open spec fn spaced(cells: Seq<Seq<char>>) -> Seq<char>
    decreases cells.len(),
{
    if cells.len() == 0 {
        Seq::empty()
    } else {
        spaced(cells.drop_last()) + cells.last() + " "@
    }
}

/// The lines in a row, with a line break between one and the next.
pub open spec fn joined(lines: Seq<Seq<char>>) -> Seq<char>
    decreases lines.len(),
{
    if lines.len() == 0 {
        Seq::empty()
    } else if lines.len() == 1 {
        lines[0]
    } else {
        joined(lines.drop_last()) + "\n"@ + lines.last()
    }
}

/// The sections of a help message, in the order in which they are shown.
#[derive(Debug, Clone, Copy, PartialEq, Eq, Structural)]
pub enum Section {
    /// Positional arguments and the trail.
    Required,
    /// Interrupts.
    Interrupts,
    /// Options that take values, and switches.
    Optional,
    /// Pass-along arguments.
    PassAlongs,
}

/// The section that an argument is shown in.
pub open spec fn section_of(kind: ArgumentKind) -> Section {
    match kind {
        ArgumentKind::Positional(_) => Section::Required,
        ArgumentKind::TrailZeroOrMore(_) => Section::Required,
        ArgumentKind::TrailOneOrMore(_) => Section::Required,
        ArgumentKind::Interrupt(_) => Section::Interrupts,
        ArgumentKind::PassAlong(_) => Section::PassAlongs,
        _ => Section::Optional,
    }
}

/// The heading of a section.
pub open spec fn heading(section: Section) -> Seq<char> {
    match section {
        Section::Required => "Required arguments:"@,
        Section::Interrupts => "Interrupts:"@,
        Section::Optional => "Optional arguments:"@,
        Section::PassAlongs => "Pass-alongs:"@,
    }
}

/// How a parameter that may be repeated is shown.
pub open spec fn several(param: Seq<char>) -> Seq<char> {
    "["@ + param + ", ..]"@
}

/// How a parameter that is needed once and may be repeated is shown.
pub open spec fn one_and_several(param: Seq<char>) -> Seq<char> {
    param + " "@ + several(param)
}

/// What is shown behind the name of an argument: how its parameters look.
pub open spec fn parameters_shown(kind: ArgumentKind, param: Seq<char>) -> Option<Seq<char>> {
    match kind {
        ArgumentKind::OptionSingle(_) => Some(param),
        ArgumentKind::OptionZeroOrMore(_) => Some(several(param)),
        ArgumentKind::OptionOneOrMore(_) => Some(one_and_several(param)),
        ArgumentKind::PassAlong(_) => Some(param + "..."@),
        _ => None,
    }
}

/// The cells of the row of an argument, where `param` is the label that its
/// parameters are shown with. A positional argument shows its name, a trail
/// its name as a repeated parameter. An option with a long name alone shows
/// one cell, the long flag with its parameters behind it; an option with a
/// short name too shows the long flag, a bar, the short flag and, in a cell
/// of their own, its parameters.
pub open spec fn cells(kind: ArgumentKind, param: Seq<char>) -> Seq<Seq<char>> {
    match kind {
        ArgumentKind::Positional(name) => seq![name],
        ArgumentKind::TrailZeroOrMore(name) => seq![several(name)],
        ArgumentKind::TrailOneOrMore(name) => seq![one_and_several(name)],
        _ => match kind.option_name()->0 {
            OptionName::Long(long) => match parameters_shown(kind, param) {
                None => seq!["--"@ + long],
                Some(shown) => seq![
                    "--"@ + long + (if kind is OptionOneOrMore {
                        " "@
                    } else {
                        Seq::empty()
                    }) + shown,
                ],
            },
            OptionName::ShortAndLong(short, long) => match parameters_shown(kind, param) {
                None => seq!["--"@ + long, "|"@, "-"@.push(short)],
                Some(shown) => seq!["--"@ + long, "|"@, "-"@.push(short), shown],
            },
        },
    }
}

/// The label that the parameters of an argument are shown with: its
/// parameter label, or else its name in upper case.
pub open spec fn shown_param(decl: ArgumentDeclaration) -> Seq<char> {
    let label = text_or_empty(decl.parameter_label);
    if label.len() == 0 {
        uppercase(decl.kind.name())
    } else {
        label
    }
}

/// The declarations of a section, in the order of the registry.
pub open spec fn members(defs: Registry, section: Section) -> Registry
    decreases defs.len(),
{
    if defs.len() == 0 {
        Seq::empty()
    } else {
        let earlier = members(defs.drop_last(), section);
        if section_of(defs.last().kind) == section {
            earlier.push(defs.last())
        } else {
            earlier
        }
    }
}

/// The rows of cells of the members of a section.
pub open spec fn rows(members: Registry) -> Seq<Seq<Seq<char>>> {
    Seq::new(members.len(), |i: int| cells(members[i].kind, shown_param(members[i])))
}

/// The help texts of the members of a section.
pub open spec fn help_texts(members: Registry) -> Seq<Seq<char>> {
    Seq::new(members.len(), |i: int| text_or_empty(members[i].help_text))
}

/// The first column of a section that is not the required one, with the
/// help text as a second column.
pub open spec fn with_help(rows: Seq<Seq<Seq<char>>>, helps: Seq<Seq<char>>) -> Seq<
    Seq<Seq<char>>,
> {
    Seq::new(rows.len(), |i: int| seq![spaced(aligned(rows, ' ')[i]), helps[i]])
}

/// The lines of the members of a section. A line is indented by two
/// spaces, and three spaces stand before the help text. In the section of
/// the required arguments the cells are aligned; in the other sections the
/// help texts are aligned as well.
pub open spec fn member_lines(section: Section, members: Registry) -> Seq<Seq<char>> {
    let table = rows(members);
    let helps = help_texts(members);
    if section == Section::Required {
        Seq::new(
            members.len(),
            |i: int| "  "@ + spaced(aligned(table, ' ')[i]) + "   "@ + helps[i],
        )
    } else {
        let columns = aligned(with_help(table, helps), ' ');
        Seq::new(members.len(), |i: int| "  "@ + columns[i][0] + "   "@ + columns[i][1])
    }
}

/// The lines of a section: none where it has no member, else its heading
/// and the lines of its members.
pub open spec fn section_lines(defs: Registry, section: Section) -> Seq<Seq<char>> {
    let shown = members(defs, section);
    if shown.len() == 0 {
        Seq::empty()
    } else {
        seq![heading(section)] + member_lines(section, shown)
    }
}

/// The lines so far with the lines of one more section behind them, and an
/// empty line between the two where neither is empty.
pub open spec fn with_section(so_far: Seq<Seq<char>>, section: Seq<Seq<char>>) -> Seq<Seq<char>> {
    if section.len() == 0 {
        so_far
    } else if so_far.len() == 0 {
        section
    } else {
        so_far + seq![Seq::<char>::empty()] + section
    }
}

/// The lines of the help message of a registry.
pub open spec fn help_lines(defs: Registry) -> Seq<Seq<char>> {
    with_section(
        with_section(
            with_section(
                section_lines(defs, Section::Required),
                section_lines(defs, Section::Interrupts),
            ),
            section_lines(defs, Section::Optional),
        ),
        section_lines(defs, Section::PassAlongs),
    )
}

/// The help message of a registry: its lines, joined by line breaks.
pub open spec fn help_text(defs: Registry) -> Seq<char> {
    joined(help_lines(defs))
}

/// Gives the upper-case form of a text with `str::to_uppercase`, which
/// returns a new string that holds the text in upper case. The contract
/// gives that string its name and claims no more of it.
#[verifier::external_body]
fn upper_case(text: &str) -> (upper: String)
    ensures
        upper@ == uppercase(text@),
{
    text.to_uppercase()
}

/// The texts that a list of strings holds.
pub open spec fn strings_view(strings: Seq<String>) -> Seq<Seq<char>> {
    strings.map_values(|s: String| s@)
}

/// The rows of texts that a list of rows of strings holds.
pub open spec fn table_view(lines: Seq<Vec<String>>) -> Seq<Seq<Seq<char>>> {
    lines.map_values(|row: Vec<String>| strings_view(row@))
}

/// The padding character that is asked for, or else a space.
pub open spec fn padding_or_space(padding: Option<char>) -> char {
    match padding {
        Some(c) => c,
        None => ' ',
    }
}

/// Puts the padding character behind a text until the text takes at least
/// `width` bytes.
pub fn pad_text(text: &mut String, width: usize, padding: char)
    ensures
        final(text)@ == padded(old(text)@, width as nat, padding),
{
    while text.as_str().as_bytes().len() < width
        invariant
            padded(text@, width as nat, padding) == padded(old(text)@, width as nat, padding),
        decreases lacking(text@, width as nat),
    {
        proof {
            lemma_byte_len_push(text@, padding);
        }
        push_char(text, padding);
    }
}

/// Measures a column: the greatest number of bytes that one of its cells
/// takes.
fn width_of_column(lines: &Vec<Vec<String>>, col: usize) -> (width: usize)
    ensures
        width == column_width(table_view(lines@), col as int),
{
    let ghost table = table_view(lines@);
    let mut width: usize = 0;
    let mut r: usize = 0;
    assert(table.take(0) =~= Seq::<Seq<Seq<char>>>::empty());
    while r < lines.len()
        invariant
            r <= lines@.len(),
            table == table_view(lines@),
            width == column_width(table.take(r as int), col as int),
        decreases lines@.len() - r,
    {
        let row = &lines[r];
        assert(table.take(r + 1).drop_last() =~= table.take(r as int));
        assert(table.take(r + 1).last() == strings_view(row@));
        if col < row.len() {
            let cell = &row[col];
            assert(strings_view(row@)[col as int] == cell@);
            let taken = cell.as_str().as_bytes().len();
            if taken > width {
                width = taken;
            }
        }
        r += 1;
    }
    assert(table.take(r as int) =~= table);
    width
}

/// Pads every cell to the width of its column, with the padding character
/// that is given or else with spaces.
pub fn align_lines(lines: &mut Vec<Vec<String>>, padding: Option<char>)
    ensures
        table_view(final(lines)@) == aligned(table_view(old(lines)@), padding_or_space(padding)),
{
    let pad = if let Some(pad) = padding {
        pad
    } else {
        ' '
    };
    let ghost table = table_view(lines@);
    // Calculate widths
    let mut widths: Vec<usize> = Vec::new();
    let mut r: usize = 0;
    while r < lines.len()
        invariant
            r <= lines@.len(),
            lines@ == old(lines)@,
            table == table_view(lines@),
            forall|c: int| 0 <= c < widths@.len() ==> widths@[c] == column_width(table, c),
            forall|k: int| 0 <= k < r ==> table[k].len() <= widths@.len(),
        decreases lines@.len() - r,
    {
        let cells = lines[r].len();
        assert(table[r as int].len() == cells);
        while widths.len() < cells
            invariant
                table == table_view(lines@),
                forall|c: int| 0 <= c < widths@.len() ==> widths@[c] == column_width(table, c),
                forall|k: int| 0 <= k < r ==> table[k].len() <= widths@.len(),
            decreases cells - widths@.len(),
        {
            let width = width_of_column(lines, widths.len());
            widths.push(width);
        }
        r += 1;
    }
    // Pad the lines
    let mut out: Vec<Vec<String>> = Vec::new();
    let mut r: usize = 0;
    while r < lines.len()
        invariant
            r <= lines@.len(),
            lines@ == old(lines)@,
            table == table_view(lines@),
            forall|c: int| 0 <= c < widths@.len() ==> widths@[c] == column_width(table, c),
            forall|k: int| 0 <= k < lines@.len() ==> table[k].len() <= widths@.len(),
            out@.len() == r,
            forall|k: int| 0 <= k < r ==> strings_view(#[trigger] out@[k]@) == aligned(table, pad)[k],
        decreases lines@.len() - r,
    {
        let row = &lines[r];
        assert(table[r as int] == strings_view(row@));
        let mut line: Vec<String> = Vec::new();
        let mut c: usize = 0;
        while c < row.len()
            invariant
                c <= row@.len(),
                row@.len() <= widths@.len(),
                table[r as int] == strings_view(row@),
                r < table.len(),
                forall|c: int| 0 <= c < widths@.len() ==> widths@[c] == column_width(table, c),
                line@.len() == c,
                forall|j: int|
                    0 <= j < c ==> (#[trigger] line@[j])@ == padded(
                        table[r as int][j],
                        column_width(table, j),
                        pad,
                    ),
            decreases row@.len() - c,
        {
            let mut cell = row[c].clone();
            assert(cell@ == table[r as int][c as int]);
            pad_text(&mut cell, widths[c], pad);
            line.push(cell);
            c += 1;
        }
        assert(strings_view(line@) =~= aligned(table, pad)[r as int]);
        out.push(line);
        r += 1;
    }
    assert(table_view(out@) =~= aligned(table, pad));
    *lines = out;
}

/// Shows a parameter that may be repeated.
fn several_text(param: &str) -> (shown: String)
    ensures
        shown@ == several(param@),
{
    let mut shown = String::from_str("[");
    shown.append(param);
    shown.append(", ..]");
    shown
}

/// Shows a parameter that is needed once and may be repeated.
fn one_and_several_text(param: &str) -> (shown: String)
    ensures
        shown@ == one_and_several(param@),
{
    let mut shown = String::from_str(param);
    shown.append(" ");
    let more = several_text(param);
    shown.append(more.as_str());
    assert(shown@ =~= one_and_several(param@));
    shown
}

/// The text of an optional string.
pub open spec fn optional_string(text: Option<String>) -> Option<Seq<char>> {
    match text {
        Some(t) => Some(t@),
        None => None,
    }
}

/// Shows the parameters of an argument, where it takes any.
fn parameters_text(kind: ArgType<'_>, param: &str) -> (shown: Option<String>)
    ensures
        optional_string(shown) == parameters_shown(kind@, param@),
{
    match kind {
        ArgType::OptSingle(_) => Some(String::from_str(param)),
        ArgType::OptZeroPlus(_) => Some(several_text(param)),
        ArgType::OptOnePlus(_) => Some(one_and_several_text(param)),
        ArgType::PassAlong(_) => {
            let mut shown = String::from_str(param);
            shown.append("...");
            Some(shown)
        },
        _ => None,
    }
}

/// Builds the cells of the row of an argument, where `param` is the label
/// that its parameters are shown with.
pub fn argument_cells(kind: ArgType<'_>, param: &str) -> (row: Vec<String>)
    ensures
        strings_view(row@) == cells(kind@, param@),
{
    let mut row: Vec<String> = Vec::new();
    let name = match kind {
        ArgType::Single(name) => {
            row.push(String::from_str(name));
            assert(strings_view(row@) =~= cells(kind@, param@));
            return row;
        },
        ArgType::ZeroPlus(name) => {
            row.push(several_text(name));
            assert(strings_view(row@) =~= cells(kind@, param@));
            return row;
        },
        ArgType::OnePlus(name) => {
            row.push(one_and_several_text(name));
            assert(strings_view(row@) =~= cells(kind@, param@));
            return row;
        },
        ArgType::OptSingle(name) => name,
        ArgType::OptZeroPlus(name) => name,
        ArgType::OptOnePlus(name) => name,
        ArgType::Switch(name) => name,
        ArgType::Interrupt(name) => name,
        ArgType::PassAlong(name) => name,
    };
    assert(kind@.option_name() == Some(name@));
    let shown = parameters_text(kind, param);
    let mut long_flag = String::from_str("--");
    long_flag.append(name.name());
    match name {
        OptName::Normal(_) => {
            if let Some(parameters) = shown {
                if let ArgType::OptOnePlus(_) = kind {
                    long_flag.append(" ");
                } else {
                    assert(long_flag@ + Seq::<char>::empty() =~= long_flag@);
                }
                long_flag.append(parameters.as_str());
            }
            row.push(long_flag);
            assert(strings_view(row@) =~= cells(kind@, param@));
        },
        OptName::NormalAndShort(_, short) => {
            let mut short_flag = String::from_str("-");
            push_char(&mut short_flag, short);
            row.push(long_flag);
            row.push(String::from_str("|"));
            row.push(short_flag);
            if let Some(parameters) = shown {
                row.push(parameters);
            }
            assert(strings_view(row@) =~= cells(kind@, param@));
        },
    }
    row
}

/// Gives the label that the parameters of an argument are shown with.
fn shown_label(arg: &Arg<'_>) -> (label: String)
    ensures
        label@ == shown_param(arg@),
{
    let param = arg.param();
    if param.is_empty() {
        upper_case(arg.name())
    } else {
        String::from_str(param)
    }
}

/// Tells the section that an argument is shown in.
fn section_of_kind(kind: ArgType<'_>) -> (section: Section)
    ensures
        section == section_of(kind@),
{
    match kind {
        ArgType::Single(_) => Section::Required,
        ArgType::ZeroPlus(_) => Section::Required,
        ArgType::OnePlus(_) => Section::Required,
        ArgType::Interrupt(_) => Section::Interrupts,
        ArgType::PassAlong(_) => Section::PassAlongs,
        _ => Section::Optional,
    }
}

/// Gives the rows of cells and the help texts of the members of a section.
fn section_rows<'a>(args: &Vec<Arg<'a>>, section: Section) -> (shown: (
    Vec<Vec<String>>,
    Vec<&'a str>,
))
    ensures
        table_view(shown.0@) == rows(members(declarations(args@), section)),
        texts(shown.1@) == help_texts(members(declarations(args@), section)),
{
    let ghost defs = declarations(args@);
    let mut lines: Vec<Vec<String>> = Vec::new();
    let mut helps: Vec<&'a str> = Vec::new();
    let mut i: usize = 0;
    assert(defs.take(0) =~= Seq::<ArgumentDeclaration>::empty());
    assert(table_view(lines@) =~= rows(members(defs.take(0), section)));
    assert(texts(helps@) =~= help_texts(members(defs.take(0), section)));
    while i < args.len()
        invariant
            i <= args@.len(),
            defs == declarations(args@),
            table_view(lines@) == rows(members(defs.take(i as int), section)),
            texts(helps@) == help_texts(members(defs.take(i as int), section)),
        decreases args@.len() - i,
    {
        let arg = args[i];
        let ghost before = members(defs.take(i as int), section);
        assert(defs.take(i + 1).drop_last() =~= defs.take(i as int));
        assert(defs.take(i + 1).last() == arg@);
        let kind = internal_get_raw(arg);
        if section_of_kind(kind) == section {
            // A positional argument shows no parameter
            let label = if section == Section::Required {
                String::new()
            } else {
                shown_label(&arg)
            };
            assert(cells(arg@.kind, label@) == cells(arg@.kind, shown_param(arg@)));
            let ghost table = table_view(lines@);
            let ghost notes = texts(helps@);
            lines.push(argument_cells(kind, label.as_str()));
            helps.push(arg.help());
            assert(table_view(lines@) =~= table.push(cells(arg@.kind, label@)));
            assert(texts(helps@) =~= notes.push(text_or_empty(arg@.help_text)));
            assert(rows(before.push(arg@)) =~= rows(before).push(
                cells(arg@.kind, shown_param(arg@)),
            ));
            assert(help_texts(before.push(arg@)) =~= help_texts(before).push(
                text_or_empty(arg@.help_text),
            ));
        }
        i += 1;
    }
    assert(defs.take(i as int) =~= defs);
    (lines, helps)
}

/// Puts the cells of a row in a row, each with one space behind it.
fn spaced_text(cells: &Vec<String>) -> (text: String)
    ensures
        text@ == spaced(strings_view(cells@)),
{
    let ghost row = strings_view(cells@);
    let mut text = String::new();
    let mut i: usize = 0;
    assert(row.take(0) =~= Seq::<Seq<char>>::empty());
    while i < cells.len()
        invariant
            i <= cells@.len(),
            row == strings_view(cells@),
            text@ == spaced(row.take(i as int)),
        decreases cells@.len() - i,
    {
        assert(row.take(i + 1).drop_last() =~= row.take(i as int));
        assert(row.take(i + 1).last() == cells@[i as int]@);
        text.append(cells[i].as_str());
        text.append(" ");
        i += 1;
    }
    assert(row.take(i as int) =~= row);
    text
}

/// Gives the heading of a section.
fn heading_text(section: Section) -> (text: String)
    ensures
        text@ == heading(section),
{
    match section {
        Section::Required => String::from_str("Required arguments:"),
        Section::Interrupts => String::from_str("Interrupts:"),
        Section::Optional => String::from_str("Optional arguments:"),
        Section::PassAlongs => String::from_str("Pass-alongs:"),
    }
}

/// Builds one line: two spaces, the columns, three spaces, the help text.
fn member_line(columns: &str, help: &str) -> (line: String)
    ensures
        line@ == "  "@ + columns@ + "   "@ + help@,
{
    let mut line = String::from_str("  ");
    line.append(columns);
    line.append("   ");
    line.append(help);
    line
}

/// Builds the lines of a section: none where no argument belongs to it.
fn section_text<'a>(args: &Vec<Arg<'a>>, section: Section) -> (lines: Vec<String>)
    ensures
        strings_view(lines@) == section_lines(declarations(args@), section),
{
    let ghost shown = members(declarations(args@), section);
    let ghost table = rows(shown);
    let ghost notes = help_texts(shown);
    let (mut cells, helps) = section_rows(args, section);
    let mut lines: Vec<String> = Vec::new();
    if cells.len() == 0 {
        assert(table.len() == 0);
        assert(strings_view(lines@) =~= section_lines(declarations(args@), section));
        return lines;
    }
    assert(table.len() == shown.len());
    assert(texts(helps@).len() == helps@.len());
    lines.push(heading_text(section));
    align_lines(&mut cells, None);
    assert(table_view(cells@).len() == cells@.len());
    assert(aligned(table, ' ').len() == table.len());
    if section == Section::Required {
        let mut i: usize = 0;
        while i < cells.len()
            invariant
                i <= cells@.len(),
                cells@.len() == shown.len() == helps@.len(),
                table_view(cells@) == aligned(table, ' '),
                texts(helps@) == notes,
                table == rows(shown),
                notes == help_texts(shown),
                section == Section::Required,
                lines@.len() == i + 1,
                lines@[0]@ == heading(section),
                forall|k: int|
                    0 <= k < i ==> (#[trigger] lines@[k + 1])@ == member_lines(section, shown)[k],
            decreases cells@.len() - i,
        {
            let columns = spaced_text(&cells[i]);
            assert(table_view(cells@)[i as int] == strings_view(cells@[i as int]@));
            assert(texts(helps@)[i as int] == helps@[i as int]@);
            lines.push(member_line(columns.as_str(), helps[i]));
            i += 1;
        }
    } else {
        let mut combined: Vec<Vec<String>> = Vec::new();
        let mut i: usize = 0;
        while i < cells.len()
            invariant
                i <= cells@.len(),
                cells@.len() == shown.len() == helps@.len(),
                table_view(cells@) == aligned(table, ' '),
                texts(helps@) == notes,
                table_view(combined@) == with_help(table, notes).take(i as int),
                table.len() == shown.len(),
            decreases cells@.len() - i,
        {
            let ghost before = table_view(combined@);
            let columns = spaced_text(&cells[i]);
            assert(table_view(cells@)[i as int] == strings_view(cells@[i as int]@));
            assert(texts(helps@)[i as int] == helps@[i as int]@);
            let mut pair: Vec<String> = Vec::new();
            pair.push(columns);
            pair.push(String::from_str(helps[i]));
            assert(strings_view(pair@) =~= with_help(table, notes)[i as int]);
            combined.push(pair);
            assert(table_view(combined@) =~= before.push(with_help(table, notes)[i as int]));
            assert(with_help(table, notes).take(i + 1) =~= with_help(table, notes).take(
                i as int,
            ).push(with_help(table, notes)[i as int]));
            i += 1;
        }
        assert(with_help(table, notes).take(i as int) =~= with_help(table, notes));
        align_lines(&mut combined, None);
        let ghost columns = aligned(with_help(table, notes), ' ');
        assert(table_view(combined@).len() == combined@.len());
        assert(columns.len() == with_help(table, notes).len());
        let mut i: usize = 0;
        while i < combined.len()
            invariant
                i <= combined@.len(),
                combined@.len() == shown.len(),
                table_view(combined@) == columns,
                columns == aligned(with_help(table, notes), ' '),
                table == rows(shown),
                notes == help_texts(shown),
                section != Section::Required,
                lines@.len() == i + 1,
                lines@[0]@ == heading(section),
                forall|k: int|
                    0 <= k < i ==> (#[trigger] lines@[k + 1])@ == member_lines(section, shown)[k],
            decreases combined@.len() - i,
        {
            let pair = &combined[i];
            assert(columns[i as int] == strings_view(pair@));
            assert(columns[i as int].len() == 2);
            assert(strings_view(pair@)[0] == pair@[0]@);
            assert(strings_view(pair@)[1] == pair@[1]@);
            lines.push(member_line(pair[0].as_str(), pair[1].as_str()));
            i += 1;
        }
    }
    let ghost wanted = seq![heading(section)] + member_lines(section, shown);
    assert(member_lines(section, shown).len() == shown.len());
    assert(strings_view(lines@).len() == wanted.len());
    assert forall|k: int| 0 <= k < wanted.len() implies strings_view(lines@)[k] == wanted[k] by {
        if k > 0 {
            assert(lines@[(k - 1) + 1]@ == member_lines(section, shown)[k - 1]);
        }
    }
    assert(strings_view(lines@) =~= wanted);
    lines
}

/// Puts the lines of one more section behind the lines so far, with an
/// empty line between the two where neither is empty.
fn add_section(lines: &mut Vec<String>, section: Vec<String>)
    ensures
        strings_view(final(lines)@) == with_section(
            strings_view(old(lines)@),
            strings_view(section@),
        ),
{
    let ghost so_far = strings_view(lines@);
    let ghost added = strings_view(section@);
    let mut section = section;
    if section.len() == 0 {
        return ;
    }
    if lines.len() > 0 {
        lines.push(String::new());
    }
    lines.append(&mut section);
    assert(strings_view(lines@) =~= with_section(so_far, added));
}

/// Joins lines with a line break between one and the next.
fn join_lines(lines: &Vec<String>) -> (text: String)
    ensures
        text@ == joined(strings_view(lines@)),
{
    let ghost all = strings_view(lines@);
    let mut text = String::new();
    let mut i: usize = 0;
    assert(all.take(0) =~= Seq::<Seq<char>>::empty());
    while i < lines.len()
        invariant
            i <= lines@.len(),
            all == strings_view(lines@),
            text@ == joined(all.take(i as int)),
        decreases lines@.len() - i,
    {
        assert(all.take(i + 1).drop_last() =~= all.take(i as int));
        assert(all.take(i + 1).last() == lines@[i as int]@);
        if i > 0 {
            text.append("\n");
        } else {
            assert(all.take(1)[0] == lines@[0]@);
            assert(Seq::<char>::empty() + lines@[0]@ =~= lines@[0]@);
        }
        text.append(lines[i].as_str());
        i += 1;
    }
    assert(all.take(i as int) =~= all);
    text
}

/// Generates a help message for the tool based on the given list of arguments,
/// their parameter name (if relevant), and their help string.
pub fn generate_help<'a>(parser: &Parser<'a>) -> (help: String)
    ensures
        help@ == help_text(parser@),
{
    let args = internal_get_definitions(parser);
    let mut lines = section_text(args, Section::Required);
    add_section(&mut lines, section_text(args, Section::Interrupts));
    add_section(&mut lines, section_text(args, Section::Optional));
    add_section(&mut lines, section_text(args, Section::PassAlongs));
    join_lines(&lines)
}

} // verus!
