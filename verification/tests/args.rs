use finr::args::{parse, ArgError, Command, ParseResult};
use finr::MatchMode;

fn owned(args: &[&str]) -> Vec<String> {
    args.iter().map(|s| s.to_string()).collect()
}

fn search(args: &[&str]) -> ParseResult {
    match parse(&owned(args)) {
        Ok(Command::Search(search)) => search,
        other => panic!("expected a search, got {:?}", other),
    }
}

fn refusal(args: &[&str]) -> ArgError {
    match parse(&owned(args)) {
        Err(error) => error,
        other => panic!("expected an error, got {:?}", other),
    }
}

#[test]
fn basic_parse_test() {
    let args = vec![
        "main",
        ".",
        "--type",
        "FILE",
        "--max-depth",
        "300",
        "--regex",
        "--ignore-case",
        "--include-hidden",
        "--exclude",
        "foo",
        "bar",
    ]
    .into_iter()
    .map(|s| s.to_owned())
    .collect();

    let ParseResult { config, .. } = match parse(&args) {
        Ok(Command::Search(search)) => search,
        other => panic!("expected a search, got {:?}", other),
    };

    assert_eq!(config.target, String::from("main"));
    assert_eq!(config.is_dir, false);
    assert_eq!(config.max_depth, 300);
    assert_eq!(config.match_mode, MatchMode::Regex);
    assert_eq!(config.ignore_case, true);
    assert_eq!(config.include_hidden, true);
    assert!(config.exclude.contains("foo") && config.exclude.contains("bar"));
}

#[test]
fn defaults_without_flags() {
    let ParseResult { config, path } = search(&["needle"]);
    assert_eq!(config.target, "needle");
    assert_eq!(path, None);
    assert_eq!(config.is_dir, false);
    assert_eq!(config.match_mode, MatchMode::Contains);
    assert!(config.regex.is_none());
    assert_eq!(config.max_depth, 100);
    assert_eq!(config.ignore_case, false);
    assert_eq!(config.include_hidden, false);
    assert!(config.included.is_empty());
}

#[test]
fn default_names_are_always_excluded() {
    let ParseResult { config, .. } = search(&["needle", "--exclude", "mine"]);
    assert_eq!(config.exclude.len(), 12);
    for name in finr::DEFAULT_EXCLUDE_LIST {
        assert!(config.exclude.contains(name));
    }
    assert!(config.exclude.contains("mine"));
    assert_eq!(
        finr::DEFAULT_EXCLUDE_LIST,
        [
            "node_modules",
            "target",
            "debug",
            "__pycache__",
            "cache",
            "output",
            "bower_components",
            "web_modules",
            "out",
            "dist",
            "coverage"
        ]
    );
}

#[test]
fn path_is_the_second_argument() {
    let ParseResult { config, path } = search(&["needle", "some/where", "-s"]);
    assert_eq!(config.target, "needle");
    assert_eq!(path, Some(String::from("some/where")));
    assert_eq!(config.match_mode, MatchMode::Start);
}

#[test]
fn leading_flag_leaves_target_empty() {
    let ParseResult { config, path } = search(&["--end", "-i"]);
    assert_eq!(config.target, "");
    assert_eq!(path, None);
    assert_eq!(config.match_mode, MatchMode::End);
    assert!(config.ignore_case);
}

#[test]
fn short_flags() {
    let ParseResult { config, .. } =
        search(&["x", "-R", "-i", "-H", "-d", "7", "-t", "d", "-E", "a", "-I", "b", "c"]);
    assert_eq!(config.match_mode, MatchMode::Regex);
    assert!(config.ignore_case);
    assert!(config.include_hidden);
    assert_eq!(config.max_depth, 7);
    assert!(config.is_dir);
    assert!(config.exclude.contains("a"));
    assert!(!config.exclude.contains("b"));
    assert!(config.included.contains("b") && config.included.contains("c"));
    assert_eq!(config.included.len(), 2);
    let pattern = config.regex.expect("compiled in regex mode");
    assert_eq!(pattern.source(), "x");
    assert!(pattern.case_insensitive());
}

#[test]
fn last_mode_wins() {
    let ParseResult { config, .. } = search(&["(", "--regex", "--start"]);
    assert_eq!(config.match_mode, MatchMode::Start);
    assert!(config.regex.is_none());
    let ParseResult { config, .. } = search(&["a", "--start", "--end", "--regex"]);
    assert_eq!(config.match_mode, MatchMode::Regex);
    assert!(config.regex.is_some());
}

#[test]
fn type_values() {
    assert!(!search(&["x", "--type", "file"]).config.is_dir);
    assert!(!search(&["x", "--type", "F"]).config.is_dir);
    assert!(search(&["x", "--type", "directory"]).config.is_dir);
    assert!(search(&["x", "--type", "D"]).config.is_dir);
    assert!(search(&["x", "--type", "DiRectory"]).config.is_dir);
    assert!(!search(&["x", "-t", "d", "-t", "f"]).config.is_dir);
}

#[test]
fn max_depth_values() {
    assert_eq!(search(&["x", "--max-depth", "0"]).config.max_depth, 0);
    assert_eq!(search(&["x", "--max-depth", "+5"]).config.max_depth, 5);
    assert_eq!(search(&["x", "--max-depth", "007"]).config.max_depth, 7);
    let most = usize::MAX.to_string();
    assert_eq!(search(&["x", "--max-depth", &most]).config.max_depth, usize::MAX);
    for bad in ["", "+", "-1", "1 ", " 1", "1_0", "0x10", "1.5", "99999999999999999999999999"] {
        assert!(matches!(refusal(&["x", "--max-depth", bad]), ArgError::InvalidMaxDepth));
    }
    assert!(matches!(refusal(&["x", "--max-depth", "--regex"]), ArgError::InvalidMaxDepth));
}

#[test]
fn names_are_trimmed() {
    let ParseResult { config, .. } = search(&["x", "--exclude", "  spaced\t", " -dash", "-I", " in "]);
    assert!(config.exclude.contains("spaced"));
    assert!(!config.exclude.contains("  spaced\t"));
    assert!(config.exclude.contains("-dash"));
    assert!(config.included.contains("in"));
}

#[test]
fn name_lists_need_a_name() {
    for flag in ["--exclude", "-E"] {
        let error = refusal(&["x", flag]);
        assert!(matches!(error, ArgError::MissingExclude));
        assert_eq!(error.message(), "Missing argument for --exclude flag");
        assert!(matches!(refusal(&["x", flag, "-H"]), ArgError::MissingExclude));
        assert!(matches!(refusal(&["x", flag, "--help"]), ArgError::MissingExclude));
    }
    for flag in ["--include", "-I"] {
        let error = refusal(&["x", flag]);
        assert!(matches!(error, ArgError::MissingInclude));
        assert_eq!(error.message(), "Missing argument for --include flag");
        assert!(matches!(refusal(&["x", flag, "--exclude", "a"]), ArgError::MissingInclude));
    }
    // one name is enough, and the list ends at the next flag
    let ParseResult { config, .. } = search(&["x", "--exclude", "a", "--include", "b", "-H"]);
    assert_eq!(config.exclude.len(), 12);
    assert!(config.exclude.contains("a"));
    assert_eq!(config.included.len(), 1);
    assert!(config.included.contains("b"));
    assert!(config.include_hidden);
    // a first name that is empty once trimmed is a name all the same
    assert!(matches!(refusal(&["x", "--exclude", " "]), ArgError::EmptyExclude));
    assert!(matches!(refusal(&["x", "--include", ""]), ArgError::EmptyInclude));
}

#[test]
fn missing_max_depth() {
    let error = refusal(&["x", "--max-depth"]);
    assert!(matches!(error, ArgError::MissingMaxDepth));
    assert_eq!(error.message(), "Missing argument for --max-depth flag");
}

#[test]
fn invalid_max_depth() {
    let error = refusal(&["x", "-d", "deep"]);
    assert!(matches!(error, ArgError::InvalidMaxDepth));
    assert_eq!(error.message(), "Argument for --max-depth should be a positive integer");
}

#[test]
fn missing_type() {
    let error = refusal(&["x", "-t"]);
    assert!(matches!(error, ArgError::MissingType));
    assert_eq!(error.message(), "Missing Argument for --type flag");
}

#[test]
fn invalid_type() {
    let error = refusal(&["x", "--type", "TXT"]);
    assert!(matches!(&error, ArgError::InvalidType(value) if value == "txt"));
    assert_eq!(
        error.message(),
        "Invalid argument \"txt\" for --type flag. Valid arguments [file | directory]"
    );
}

#[test]
fn empty_exclude() {
    let error = refusal(&["x", "--exclude", "ok", "  "]);
    assert!(matches!(error, ArgError::EmptyExclude));
    assert_eq!(error.message(), "Invalid value for --exclude argument: \"\"");
    assert!(matches!(refusal(&["x", "-E", ""]), ArgError::EmptyExclude));
}

#[test]
fn empty_include() {
    let error = refusal(&["x", "--include", "\t"]);
    assert!(matches!(error, ArgError::EmptyInclude));
    assert_eq!(error.message(), "Invalid value for --include argument: \"\"");
}

#[test]
fn unknown_flag_names_the_argument() {
    let error = refusal(&["x", "--typo"]);
    assert!(matches!(&error, ArgError::UnknownFlag(flag) if flag == "--typo"));
    assert_eq!(error.message(), "Unknown flag: \"--typo\"");
    // a third positional argument is read as a flag
    assert!(matches!(refusal(&["x", "y", "z"]), ArgError::UnknownFlag(flag) if flag == "z"));
}

#[test]
fn invalid_regex() {
    let error = refusal(&["(unclosed", "--regex"]);
    assert!(matches!(error, ArgError::InvalidRegex(_)));
    assert!(!error.message().is_empty());
    assert!(error.message().contains("unclosed"));
    // the same target is fine where it is not compiled
    assert_eq!(search(&["(unclosed"]).config.target, "(unclosed");
}

#[test]
fn first_error_wins() {
    assert!(matches!(refusal(&["x", "--typo", "--help"]), ArgError::UnknownFlag(_)));
    assert!(matches!(refusal(&["(", "-R", "-d", "x"]), ArgError::InvalidMaxDepth));
}

#[test]
fn help_ends_the_reading() {
    assert!(matches!(parse(&owned(&["x", "--help", "--typo"])), Ok(Command::Help)));
    assert!(matches!(parse(&owned(&["(", "-R", "-h"])), Ok(Command::Help)));
    assert!(matches!(parse(&owned(&["-h"])), Ok(Command::Help)));
    assert!(matches!(parse(&owned(&[])), Ok(Command::Help)));
}
