//! The help text.

use crate::text::texts;
use vstd::prelude::*;
use vstd::string::StringExecFns;

verus! {

/// The column at which the descriptions of the flags begin.
pub const FLAG_COLUMN: usize = 24;

/// `text` with spaces added at its end until it is `width` characters long;
/// a text that is longer already is left as it is.
pub open spec fn padded(text: Seq<char>, width: nat) -> Seq<char> {
    if text.len() >= width {
        text
    } else {
        text + Seq::new((width - text.len()) as nat, |i: int| ' ')
    }
}

/// The line of the help text for one flag: its spellings, padded to the
/// column of the descriptions, a space, and the description.
pub open spec fn flag_line(flag: Seq<char>, description: Seq<char>) -> Seq<char> {
    padded(flag, FLAG_COLUMN as nat) + seq![' '] + description
}

/// The lines of the help text: the usage line, an empty line, and one line
/// for each flag.
pub open spec fn help_spec() -> Seq<Seq<char>> {
    seq![
        "finr [TARGET] [PATH?] [FLAGS...]"@,
        ""@,
        flag_line(
            "--regex | -R"@,
            "Use [TARGET] as a regular expression (regex) to match files or directories"@,
        ),
        flag_line("--start | -s"@, "Use [TARGET] to match at the start of files or directories"@),
        flag_line("--end | -e"@, "Use [TARGET] to match at the end of files or directories"@),
        flag_line(
            "--ignore-case | -i"@,
            "The search is case-insensitive. Before processing, transform the name of the entry into lowercase"@,
        ),
        flag_line("--max-depth | -d"@, "Maximum depth of search. By default is set to 100"@),
        flag_line(
            "--type | -t"@,
            "Type of search. Possible values: f | file | directory | d (By default is set to file)"@,
        ),
        flag_line(
            "--include-hidden | -H"@,
            "Include all hidden directories in the search. Turned off by default"@,
        ),
        flag_line(
            "--exclude | -E"@,
            "Directories to exclude in the search. Expects names, not paths"@,
        ),
        flag_line(
            "--include | -I"@,
            "Directories to include in the search. Expects names, not paths"@,
        ),
    ]
}

/// Pads `text` with spaces to `width` characters.
pub fn pad_right(text: &str, width: usize) -> (wide: String)
    ensures
        wide@ == padded(text@, width as nat),
{
    let mut wide = text.to_owned();
    let mut length = text.unicode_len();
    proof {
        reveal_strlit(" ");
    }
    while length < width
        invariant
            length >= text@.len(),
            length <= width || length == text@.len(),
            wide@.len() == length,
            wide@ =~= text@ + Seq::new((length - text@.len()) as nat, |i: int| ' '),
            " "@ =~= seq![' '],
        decreases width - length,
    {
        wide.append(" ");
        length += 1;
    }
    wide
}

/// The line of the help text for one flag.
pub fn help_line(flag: &str, description: &str) -> (line: String)
    ensures
        line@ == flag_line(flag@, description@),
{
    let mut line = pad_right(flag, FLAG_COLUMN);
    proof {
        reveal_strlit(" ");
    }
    line.append(" ");
    line.append(description);
    line
}

/// The help text, line by line.
pub fn help_lines() -> (lines: Vec<String>)
    ensures
        texts(lines@) == help_spec(),
{
    let mut lines: Vec<String> = Vec::new();
    lines.push("finr [TARGET] [PATH?] [FLAGS...]".to_owned());
    lines.push("".to_owned());
    lines.push(
        help_line(
            "--regex | -R",
            "Use [TARGET] as a regular expression (regex) to match files or directories",
        ),
    );
    lines.push(
        help_line("--start | -s", "Use [TARGET] to match at the start of files or directories"),
    );
    lines.push(help_line("--end | -e", "Use [TARGET] to match at the end of files or directories"));
    lines.push(
        help_line(
            "--ignore-case | -i",
            "The search is case-insensitive. Before processing, transform the name of the entry into lowercase",
        ),
    );
    lines.push(help_line("--max-depth | -d", "Maximum depth of search. By default is set to 100"));
    lines.push(
        help_line(
            "--type | -t",
            "Type of search. Possible values: f | file | directory | d (By default is set to file)",
        ),
    );
    lines.push(
        help_line(
            "--include-hidden | -H",
            "Include all hidden directories in the search. Turned off by default",
        ),
    );
    lines.push(
        help_line("--exclude | -E", "Directories to exclude in the search. Expects names, not paths"),
    );
    lines.push(
        help_line("--include | -I", "Directories to include in the search. Expects names, not paths"),
    );
    lines
}

} // verus!
