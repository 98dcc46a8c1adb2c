//! The command line.
//!
//! An invocation is `TARGET [PATH] [FLAGS...]`. [`parse`] reads it from the
//! arguments that follow the program's name; [`parse_spec`] says, over
//! sequences of characters, what it makes of every argument list.

use crate::config::{default_excludes, Config, ConfigView, MatchMode, DEFAULT_EXCLUDE_LIST};
use crate::names::{add_name, names};
use crate::pattern::{regex_compiles, NamePattern, PatternView};
use crate::text::{
    decimal_usize, leads_with, lowercase, parse_usize, same_text, starts_with_char, texts,
    to_lowercase, trim, trimmed,
};
use fxhash::FxHashSet;
use vstd::prelude::*;
use vstd::string::StringExecFns;

verus! {

/// Why an argument list was refused.
#[derive(Debug)]
pub enum ArgError {
    /// `--max-depth` was the last argument.
    MissingMaxDepth,
    /// The argument of `--max-depth` is not a non-negative decimal number that fits.
    InvalidMaxDepth,
    /// `--type` was the last argument.
    MissingType,
    /// The argument of `--type`, here in lowercase, names no kind of entry.
    InvalidType(String),
    /// No name follows `--exclude`.
    MissingExclude,
    /// No name follows `--include`.
    MissingInclude,
    /// A name given to `--exclude` is empty once trimmed.
    EmptyExclude,
    /// A name given to `--include` is empty once trimmed.
    EmptyInclude,
    /// An argument in flag position is no known flag.
    UnknownFlag(String),
    /// The target does not compile as a regular expression; the compiler's complaint.
    InvalidRegex(String),
}

/// The mathematical content of an [`ArgError`]. The text of a regular
/// expression's complaint is not part of it.
pub enum ArgErrorView {
    MissingMaxDepth,
    InvalidMaxDepth,
    MissingType,
    InvalidType(Seq<char>),
    MissingExclude,
    MissingInclude,
    EmptyExclude,
    EmptyInclude,
    UnknownFlag(Seq<char>),
    InvalidRegex,
}

impl View for ArgError {
    type V = ArgErrorView;

    open spec fn view(&self) -> ArgErrorView {
        match self {
            ArgError::MissingMaxDepth => ArgErrorView::MissingMaxDepth,
            ArgError::InvalidMaxDepth => ArgErrorView::InvalidMaxDepth,
            ArgError::MissingType => ArgErrorView::MissingType,
            ArgError::InvalidType(value) => ArgErrorView::InvalidType(value@),
            ArgError::MissingExclude => ArgErrorView::MissingExclude,
            ArgError::MissingInclude => ArgErrorView::MissingInclude,
            ArgError::EmptyExclude => ArgErrorView::EmptyExclude,
            ArgError::EmptyInclude => ArgErrorView::EmptyInclude,
            ArgError::UnknownFlag(flag) => ArgErrorView::UnknownFlag(flag@),
            ArgError::InvalidRegex(_) => ArgErrorView::InvalidRegex,
        }
    }
}

impl ArgErrorView {
    /// The text that tells the user of the error. Of a regular expression
    /// that does not compile the compiler's own complaint is shown, which is
    /// not part of this view.
    pub open spec fn message(self) -> Seq<char> {
        match self {
            ArgErrorView::MissingMaxDepth => "Missing argument for --max-depth flag"@,
            ArgErrorView::InvalidMaxDepth => "Argument for --max-depth should be a positive integer"@,
            ArgErrorView::MissingType => "Missing Argument for --type flag"@,
            ArgErrorView::InvalidType(value) => "Invalid argument \""@ + value
                + "\" for --type flag. Valid arguments [file | directory]"@,
            ArgErrorView::MissingExclude => "Missing argument for --exclude flag"@,
            ArgErrorView::MissingInclude => "Missing argument for --include flag"@,
            ArgErrorView::EmptyExclude => "Invalid value for --exclude argument: \"\""@,
            ArgErrorView::EmptyInclude => "Invalid value for --include argument: \"\""@,
            ArgErrorView::UnknownFlag(flag) => "Unknown flag: \""@ + flag + "\""@,
            ArgErrorView::InvalidRegex => Seq::empty(),
        }
    }
}

impl ArgError {
    /// The text that tells the user of the error.
    pub fn message(&self) -> (text: String)
        ensures
            match self {
                ArgError::InvalidRegex(complaint) => text@ == complaint@,
                _ => text@ == self@.message(),
            },
    {
        match self {
            ArgError::MissingMaxDepth => "Missing argument for --max-depth flag".to_owned(),
            ArgError::InvalidMaxDepth => "Argument for --max-depth should be a positive integer".to_owned(),
            ArgError::MissingType => "Missing Argument for --type flag".to_owned(),
            ArgError::InvalidType(value) => {
                let mut text = "Invalid argument \"".to_owned();
                text.append(value.as_str());
                text.append("\" for --type flag. Valid arguments [file | directory]");
                text
            },
            ArgError::MissingExclude => "Missing argument for --exclude flag".to_owned(),
            ArgError::MissingInclude => "Missing argument for --include flag".to_owned(),
            ArgError::EmptyExclude => "Invalid value for --exclude argument: \"\"".to_owned(),
            ArgError::EmptyInclude => "Invalid value for --include argument: \"\"".to_owned(),
            ArgError::UnknownFlag(flag) => {
                let mut text = "Unknown flag: \"".to_owned();
                text.append(flag.as_str());
                text.append("\"");
                text
            },
            ArgError::InvalidRegex(complaint) => complaint.clone(),
        }
    }
}

/// A search to run: what to look for, and where to start. Without a path the
/// search starts in the current directory.
#[derive(Debug)]
pub struct ParseResult {
    pub config: Config,
    pub path: Option<String>,
}

/// What an argument list asks for.
#[derive(Debug)]
pub enum Command {
    /// Show the help text.
    Help,
    /// Run a search.
    Search(ParseResult),
}

/// The mathematical content of a [`Command`].
pub enum CommandView {
    Help,
    Search { config: ConfigView, path: Option<Seq<char>> },
}

impl View for Command {
    type V = CommandView;

    open spec fn view(&self) -> CommandView {
        match self {
            Command::Help => CommandView::Help,
            Command::Search(found) => CommandView::Search {
                config: found.config@,
                path: match found.path {
                    Some(path) => Some(path@),
                    None => None,
                },
            },
        }
    }
}

/// The list that a run of name arguments is added to.
#[derive(Debug, Clone, Copy, PartialEq, Eq, Structural)]
pub enum NameList {
    Exclude,
    Included,
}

/// `arg` is the flag with the given long and short spelling.
pub open spec fn is_flag(arg: Seq<char>, long: &str, short: &str) -> bool {
    arg == long@ || arg == short@
}

/// Reads the arguments from position `at` on as flags, starting from
/// `config`. While `collecting` names a list, arguments that do not begin
/// with `-` are names for that list; `--exclude` and `--include` must be
/// followed by at least one such argument. Gives the configuration that the
/// flags leave, `None` where help is asked for, or the first error.
pub open spec fn parse_flags(
    args: Seq<Seq<char>>,
    at: int,
    config: ConfigView,
    collecting: Option<NameList>,
) -> Result<Option<ConfigView>, ArgErrorView>
    decreases args.len() - at,
{
    if at < 0 || at >= args.len() {
        Ok(Some(config))
    } else {
        let arg = args[at];
        if collecting is Some && !leads_with(arg, '-') {
            let name = trimmed(arg);
            match collecting->0 {
                NameList::Exclude => if name.len() == 0 {
                    Err(ArgErrorView::EmptyExclude)
                } else {
                    parse_flags(
                        args,
                        at + 1,
                        ConfigView { exclude: config.exclude.insert(name), ..config },
                        collecting,
                    )
                },
                NameList::Included => if name.len() == 0 {
                    Err(ArgErrorView::EmptyInclude)
                } else {
                    parse_flags(
                        args,
                        at + 1,
                        ConfigView { included: config.included.insert(name), ..config },
                        collecting,
                    )
                },
            }
        } else if is_flag(arg, "--start", "-s") {
            parse_flags(args, at + 1, ConfigView { match_mode: MatchMode::Start, ..config }, None)
        } else if is_flag(arg, "--end", "-e") {
            parse_flags(args, at + 1, ConfigView { match_mode: MatchMode::End, ..config }, None)
        } else if is_flag(arg, "--regex", "-R") {
            parse_flags(args, at + 1, ConfigView { match_mode: MatchMode::Regex, ..config }, None)
        } else if is_flag(arg, "--ignore-case", "-i") {
            parse_flags(args, at + 1, ConfigView { ignore_case: true, ..config }, None)
        } else if is_flag(arg, "--max-depth", "-d") {
            if at + 1 >= args.len() {
                Err(ArgErrorView::MissingMaxDepth)
            } else {
                match decimal_usize(args[at + 1]) {
                    Some(depth) => parse_flags(
                        args,
                        at + 2,
                        ConfigView { max_depth: depth as nat, ..config },
                        None,
                    ),
                    None => Err(ArgErrorView::InvalidMaxDepth),
                }
            }
        } else if is_flag(arg, "--type", "-t") {
            if at + 1 >= args.len() {
                Err(ArgErrorView::MissingType)
            } else {
                let kind = lowercase(args[at + 1]);
                if is_flag(kind, "file", "f") {
                    parse_flags(args, at + 2, ConfigView { is_dir: false, ..config }, None)
                } else if is_flag(kind, "directory", "d") {
                    parse_flags(args, at + 2, ConfigView { is_dir: true, ..config }, None)
                } else {
                    Err(ArgErrorView::InvalidType(kind))
                }
            }
        } else if is_flag(arg, "--exclude", "-E") {
            if at + 1 >= args.len() || leads_with(args[at + 1], '-') {
                Err(ArgErrorView::MissingExclude)
            } else {
                parse_flags(args, at + 1, config, Some(NameList::Exclude))
            }
        } else if is_flag(arg, "--include", "-I") {
            if at + 1 >= args.len() || leads_with(args[at + 1], '-') {
                Err(ArgErrorView::MissingInclude)
            } else {
                parse_flags(args, at + 1, config, Some(NameList::Included))
            }
        } else if is_flag(arg, "--include-hidden", "-H") {
            parse_flags(args, at + 1, ConfigView { include_hidden: true, ..config }, None)
        } else if is_flag(arg, "--help", "-h") {
            Ok(None)
        } else {
            Err(ArgErrorView::UnknownFlag(arg))
        }
    }
}

/// Completes a configuration once the flags are read: in regex mode the
/// target is compiled, and the default names are excluded.
pub open spec fn finish(config: ConfigView) -> Result<ConfigView, ArgErrorView> {
    if config.match_mode == MatchMode::Regex && !regex_compiles(config.target, config.ignore_case) {
        Err(ArgErrorView::InvalidRegex)
    } else {
        Ok(
            ConfigView {
                regex: if config.match_mode == MatchMode::Regex {
                    Some(
                        PatternView {
                            source: config.target,
                            case_insensitive: config.ignore_case,
                        },
                    )
                } else {
                    None
                },
                exclude: config.exclude.union(default_excludes()),
                ..config
            },
        )
    }
}

/// Where the flags begin: after the target, if the first argument is one,
/// and after the path, if the next argument is one.
pub open spec fn flags_start(args: Seq<Seq<char>>) -> int {
    let after_target: int = if args.len() > 0 && !leads_with(args[0], '-') {
        1
    } else {
        0
    };
    if after_target < args.len() && !leads_with(args[after_target], '-') {
        after_target + 1
    } else {
        after_target
    }
}

/// The target of an invocation: its first argument, unless that begins with
/// `-`; empty otherwise.
pub open spec fn target_of(args: Seq<Seq<char>>) -> Seq<char> {
    if args.len() > 0 && !leads_with(args[0], '-') {
        args[0]
    } else {
        Seq::empty()
    }
}

/// The starting path of an invocation: the argument before the flags, where
/// it is not the target.
pub open spec fn path_of(args: Seq<Seq<char>>) -> Option<Seq<char>> {
    let after_target: int = if args.len() > 0 && !leads_with(args[0], '-') {
        1
    } else {
        0
    };
    if after_target < args.len() && !leads_with(args[after_target], '-') {
        Some(args[after_target])
    } else {
        None
    }
}

/// The command that the flags' reading leads to: its error, help, or a
/// search with the completed configuration from `path`.
pub open spec fn conclude(
    flags: Result<Option<ConfigView>, ArgErrorView>,
    path: Option<Seq<char>>,
) -> Result<CommandView, ArgErrorView> {
    match flags {
        Err(error) => Err(error),
        Ok(None) => Ok(CommandView::Help),
        Ok(Some(config)) => match finish(config) {
            Err(error) => Err(error),
            Ok(config) => Ok(CommandView::Search { config, path }),
        },
    }
}

/// What an argument list means. No argument at all asks for help. Otherwise
/// target and path are taken from the front, the flags are read in order, and
/// the configuration is completed; the first error, or the first request for
/// help, ends the reading.
pub open spec fn parse_spec(args: Seq<Seq<char>>) -> Result<CommandView, ArgErrorView> {
    if args.len() == 0 {
        Ok(CommandView::Help)
    } else {
        let start = ConfigView { target: target_of(args), ..ConfigView::initial() };
        conclude(parse_flags(args, flags_start(args), start, None), path_of(args))
    }
}

/// The view of a parse result.
pub open spec fn outcome_view(outcome: Result<Command, ArgError>) -> Result<
    CommandView,
    ArgErrorView,
> {
    match outcome {
        Ok(command) => Ok(command@),
        Err(error) => Err(error@),
    }
}

/// Whether `arg` is the flag with the given long and short spelling.
fn flag_is(arg: &str, long: &str, short: &str) -> (is: bool)
    ensures
        is == is_flag(arg@, long, short),
{
    same_text(arg, long) || same_text(arg, short)
}

/// Reading flags leaves the target as it is and compiles nothing.
pub proof fn lemma_flags_keep_target(
    args: Seq<Seq<char>>,
    at: int,
    config: ConfigView,
    collecting: Option<NameList>,
)
    ensures
        parse_flags(args, at, config, collecting) matches Ok(Some(read)) ==> read.target
            == config.target && read.regex == config.regex,
    decreases args.len() - at,
{
    if 0 <= at < args.len() {
        let arg = args[at];
        if collecting is Some && !leads_with(arg, '-') {
            let name = trimmed(arg);
            if name.len() > 0 {
                match collecting->0 {
                    NameList::Exclude => lemma_flags_keep_target(
                        args,
                        at + 1,
                        ConfigView { exclude: config.exclude.insert(name), ..config },
                        collecting,
                    ),
                    NameList::Included => lemma_flags_keep_target(
                        args,
                        at + 1,
                        ConfigView { included: config.included.insert(name), ..config },
                        collecting,
                    ),
                }
            }
        } else if is_flag(arg, "--start", "-s") {
            lemma_flags_keep_target(
                args,
                at + 1,
                ConfigView { match_mode: MatchMode::Start, ..config },
                None,
            );
        } else if is_flag(arg, "--end", "-e") {
            lemma_flags_keep_target(
                args,
                at + 1,
                ConfigView { match_mode: MatchMode::End, ..config },
                None,
            );
        } else if is_flag(arg, "--regex", "-R") {
            lemma_flags_keep_target(
                args,
                at + 1,
                ConfigView { match_mode: MatchMode::Regex, ..config },
                None,
            );
        } else if is_flag(arg, "--ignore-case", "-i") {
            lemma_flags_keep_target(args, at + 1, ConfigView { ignore_case: true, ..config }, None);
        } else if is_flag(arg, "--max-depth", "-d") {
            if at + 1 < args.len() {
                match decimal_usize(args[at + 1]) {
                    Some(depth) => lemma_flags_keep_target(
                        args,
                        at + 2,
                        ConfigView { max_depth: depth as nat, ..config },
                        None,
                    ),
                    None => {},
                }
            }
        } else if is_flag(arg, "--type", "-t") {
            if at + 1 < args.len() {
                let kind = lowercase(args[at + 1]);
                if is_flag(kind, "file", "f") {
                    lemma_flags_keep_target(
                        args,
                        at + 2,
                        ConfigView { is_dir: false, ..config },
                        None,
                    );
                } else if is_flag(kind, "directory", "d") {
                    lemma_flags_keep_target(args, at + 2, ConfigView { is_dir: true, ..config }, None);
                }
            }
        } else if is_flag(arg, "--exclude", "-E") {
            if at + 1 < args.len() && !leads_with(args[at + 1], '-') {
                lemma_flags_keep_target(args, at + 1, config, Some(NameList::Exclude));
            }
        } else if is_flag(arg, "--include", "-I") {
            if at + 1 < args.len() && !leads_with(args[at + 1], '-') {
                lemma_flags_keep_target(args, at + 1, config, Some(NameList::Included));
            }
        } else if is_flag(arg, "--include-hidden", "-H") {
            lemma_flags_keep_target(
                args,
                at + 1,
                ConfigView { include_hidden: true, ..config },
                None,
            );
        }
    }
}

/// Every search that an argument list asks for has a finished configuration:
/// its target is the one given, the pattern is compiled exactly in regex mode,
/// from the target and under the case flag, and the default names are
/// excluded.
pub proof fn lemma_parsed_is_well_formed(args: Seq<Seq<char>>)
    ensures
        parse_spec(args) matches Ok(CommandView::Search { config, path }) ==> config.well_formed()
            && config.target == target_of(args) && path == path_of(args),
{
    if args.len() > 0 {
        let start = ConfigView { target: target_of(args), ..ConfigView::initial() };
        lemma_flags_keep_target(args, flags_start(args), start, None);
    }
}

/// Adds the default names to a set of excluded names.
fn exclude_defaults(exclude: &mut FxHashSet<String>)
    ensures
        names(*final(exclude)) == names(*old(exclude)).union(default_excludes()),
{
    let mut k: usize = 0;
    while k < DEFAULT_EXCLUDE_LIST.len()
        invariant
            k <= DEFAULT_EXCLUDE_LIST@.len(),
            forall|name: Seq<char>|
                names(*exclude).contains(name) <==> (names(*old(exclude)).contains(name) || exists|
                    i: int,
                | 0 <= i < k && (#[trigger] DEFAULT_EXCLUDE_LIST@[i])@ == name),
        decreases DEFAULT_EXCLUDE_LIST@.len() - k,
    {
        add_name(exclude, DEFAULT_EXCLUDE_LIST[k].to_owned());
        k += 1;
    }
}

/// Reads an invocation from the arguments that follow the program's name.
///
/// The first argument is the target unless it begins with `-`; the next one
/// is the starting path unless it begins with `-`; the rest are flags, read in
/// order. `--exclude` and `--include` take every following argument up to the
/// next one that begins with `-`, and at least one. The first error ends the
/// reading, and so does the first request for help; an empty list asks for
/// help.
pub fn parse(args: &Vec<String>) -> (outcome: Result<Command, ArgError>)
    ensures
        outcome_view(outcome) == parse_spec(texts(args@)),
        outcome matches Ok(Command::Search(search)) ==> search.config@.well_formed(),
{
    let ghost argv = texts(args@);
    proof {
        lemma_parsed_is_well_formed(argv);
    }
    let n = args.len();
    if n == 0 {
        return Ok(Command::Help);
    }
    let mut config = Config::default();
    let mut path: Option<String> = None;
    let mut at: usize = 0;
    if !starts_with_char(args[0].as_str(), '-') {
        config.target = args[0].clone();
        at = 1;
    }
    if at < n && !starts_with_char(args[at].as_str(), '-') {
        path = Some(args[at].clone());
        at = at + 1;
    }
    let ghost whole = parse_flags(argv, at as int, config@, None);
    let ghost from = path_of(argv);
    let mut collecting: Option<NameList> = None;
    while at < n
        invariant
            n == args.len(),
            argv == texts(args@),
            at <= n,
            config.regex is None,
            parse_spec(argv) == conclude(whole, from),
            parse_flags(argv, at as int, config@, collecting) == whole,
        decreases n - at,
    {
        let arg = args[at].as_str();
        at = at + 1;
        let named = match collecting {
            Some(list) => if starts_with_char(arg, '-') {
                None
            } else {
                Some(list)
            },
            None => None,
        };
        match named {
            Some(NameList::Exclude) => {
                let name = trim(arg);
                if name.is_empty() {
                    return Err(ArgError::EmptyExclude);
                }
                add_name(&mut config.exclude, name.to_owned());
            },
            Some(NameList::Included) => {
                let name = trim(arg);
                if name.is_empty() {
                    return Err(ArgError::EmptyInclude);
                }
                add_name(&mut config.included, name.to_owned());
            },
            None => {
                collecting = None;
                if flag_is(arg, "--start", "-s") {
                    config.match_mode = MatchMode::Start;
                } else if flag_is(arg, "--end", "-e") {
                    config.match_mode = MatchMode::End;
                } else if flag_is(arg, "--regex", "-R") {
                    config.match_mode = MatchMode::Regex;
                } else if flag_is(arg, "--ignore-case", "-i") {
                    config.ignore_case = true;
                } else if flag_is(arg, "--max-depth", "-d") {
                    if at >= n {
                        return Err(ArgError::MissingMaxDepth);
                    }
                    match parse_usize(args[at].as_str()) {
                        Some(depth) => {
                            config.max_depth = depth;
                        },
                        None => {
                            return Err(ArgError::InvalidMaxDepth);
                        },
                    }
                    at = at + 1;
                } else if flag_is(arg, "--type", "-t") {
                    if at >= n {
                        return Err(ArgError::MissingType);
                    }
                    let kind = to_lowercase(args[at].as_str());
                    if flag_is(kind.as_str(), "file", "f") {
                        config.is_dir = false;
                    } else if flag_is(kind.as_str(), "directory", "d") {
                        config.is_dir = true;
                    } else {
                        return Err(ArgError::InvalidType(kind));
                    }
                    at = at + 1;
                } else if flag_is(arg, "--exclude", "-E") {
                    if at >= n || starts_with_char(args[at].as_str(), '-') {
                        return Err(ArgError::MissingExclude);
                    }
                    collecting = Some(NameList::Exclude);
                } else if flag_is(arg, "--include", "-I") {
                    if at >= n || starts_with_char(args[at].as_str(), '-') {
                        return Err(ArgError::MissingInclude);
                    }
                    collecting = Some(NameList::Included);
                } else if flag_is(arg, "--include-hidden", "-H") {
                    config.include_hidden = true;
                } else if flag_is(arg, "--help", "-h") {
                    return Ok(Command::Help);
                } else {
                    return Err(ArgError::UnknownFlag(args[at - 1].clone()));
                }
            },
        }
    }
    if config.match_mode == MatchMode::Regex {
        match NamePattern::compile(config.target.as_str(), config.ignore_case) {
            Ok(pattern) => {
                config.regex = Some(pattern);
            },
            Err(complaint) => {
                return Err(ArgError::InvalidRegex(complaint));
            },
        }
    }
    exclude_defaults(&mut config.exclude);
    Ok(Command::Search(ParseResult { config, path }))
}

} // verus!
