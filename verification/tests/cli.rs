use finr::args::{parse, ArgError, Command, ParseResult};
use finr::{find, get_match_fn, help_lines, Entry, EntryKind, FindResult, Node};

fn file(name: &str) -> Node {
    Node { entry: Entry { name: Some(name.to_string()), kind: EntryKind::File }, listing: None }
}

fn dir(name: &str) -> Node {
    Node {
        entry: Entry { name: Some(name.to_string()), kind: EntryKind::Directory },
        listing: Some(Vec::new()),
    }
}

/// Adds the file at `path`, and the directories on the way to it, to the tree.
fn touch(node: &mut Node, path: &str) {
    let mut here = node;
    let names: Vec<&str> = path.split('/').collect();
    for (i, name) in names.iter().enumerate() {
        let listing = here.listing.as_mut().expect("a directory");
        let at = match listing.iter().position(|n| n.entry.name.as_deref() == Some(*name)) {
            Some(at) => at,
            None => {
                listing.push(if i + 1 == names.len() { file(name) } else { dir(name) });
                listing.len() - 1
            }
        };
        here = &mut listing[at];
    }
}

fn tree(paths: &[&str]) -> Node {
    let mut root = dir("");
    for path in paths {
        touch(&mut root, path);
    }
    root
}

/// Runs the search that `args` ask for on `root` and gives the lines it prints.
fn run(args: &[&str], root: &Node) -> Vec<String> {
    let args: Vec<String> = args.iter().map(|s| s.to_string()).collect();
    let ParseResult { config, path } = match parse(&args) {
        Ok(Command::Search(search)) => search,
        other => panic!("expected a search, got {:?}", other),
    };
    let start = path.expect("a starting path");
    let mut result = FindResult::default();
    let match_fn = get_match_fn(&config);
    find(root, 0, &config, &mut result, &match_fn).expect("a walk without error");
    result.entries.iter().map(|e| format!("{}/{}", start, e.join("/"))).collect()
}

fn fails(args: &[&str]) -> ArgError {
    let args: Vec<String> = args.iter().map(|s| s.to_string()).collect();
    match parse(&args) {
        Err(error) => error,
        other => panic!("expected an error, got {:?}", other),
    }
}

#[test]
fn search_files_regex() {
    let paths = [
        "user/code/projects/secrets/finr2/src/main.rs",
        "user/code/avocado/src/lib.rs",
        "user/code/gopkg/src/main.go",
        "user/code/gopkg/src/utils/mod.rs",
    ];
    let root = tree(&paths);

    let lines = run(&[".+\\.rs", "root", "-R"], &root);

    assert_eq!(
        lines,
        vec![
            "root/user/code/projects/secrets/finr2/src/main.rs",
            "root/user/code/avocado/src/lib.rs",
            "root/user/code/gopkg/src/utils/mod.rs",
        ]
    );
    let output = lines.join("\n");
    assert!(output.contains("main.rs") && output.contains("lib.rs") && output.contains("mod.rs"));
    assert!(!output.contains("main.go"));
}

#[test]
fn search_files_simple() {
    let paths = [
        "user/code/rust/secrets/src/monkey-types.rs",
        "user/code/foo/bar/moon.rs",
        "user/code/typescript/src/modules/monkey-provider.ts",
        "user/code/cli-monkey.go",
    ];
    let root = tree(&paths);

    let output = run(&["monkey", "root"], &root).join("\n");

    assert!(
        output.contains("monkey-types.rs")
            && output.contains("cli-monkey.go")
            && output.contains("monkey-provider.ts")
    );
    assert!(!output.contains("moon.rs"));
}

#[test]
fn search_ignore_case() {
    let paths = [
        "user/code/foo/bar/delete.ts",
        "user/code/foo/buzz/DELETE.rs",
        "user/code/bar/foo/hei/src/modules/DELeTe.go",
        "user/code/Hi-DeleteMe.txt",
    ];
    let root = tree(&paths);

    let output = run(&[".?delete.?", "root", "-R", "--ignore-case"], &root).join("\n");

    assert!(
        output.contains("delete.ts")
            && output.contains("DELETE.rs")
            && output.contains("DELeTe.go")
            && output.contains("Hi-DeleteMe.txt")
    );
}

#[test]
fn empty_arguments() {
    let args: Vec<String> = Vec::new();
    assert!(matches!(parse(&args), Ok(Command::Help)));
    assert_eq!(help_lines()[0], "finr [TARGET] [PATH?] [FLAGS...]");
}

#[test]
fn uppercase_type_argument() {
    let args: Vec<String> = ["main.ts", "--type", "DIRECTORY"].iter().map(|s| s.to_string()).collect();
    match parse(&args) {
        Ok(Command::Search(search)) => {
            assert!(search.config.is_dir);
            assert_eq!(search.path, None);
        }
        other => panic!("expected a search, got {:?}", other),
    }
}

#[test]
fn missing_type_argument() {
    assert!(matches!(fails(&[".+\\.ts", "--regex", "--type"]), ArgError::MissingType));
}

#[test]
fn invalid_type_argument() {
    let error = fails(&[".+\\.ts", "--regex", "--type", "TXT"]);
    assert!(matches!(error, ArgError::InvalidType(_)));
    assert!(error.message().contains("txt"));
}

#[test]
fn invalid_max_depth_argument() {
    assert!(matches!(fails(&["main.go", "--max-depth", "not-a-number"]), ArgError::InvalidMaxDepth));
}

#[test]
fn unknown_flag() {
    let error = fails(&[".+\\.ts", "--regex", "--min-depth", "50", "--typo"]);
    assert!(matches!(&error, ArgError::UnknownFlag(flag) if flag == "--min-depth"));
    assert!(error.message().contains("Unknown flag"));
}

#[test]
fn include_hidden_files() {
    let paths = [
        "foo/code/bar/secrets/project/.git/d",
        "foo/code/foo/bar/foo-project/target/c.hpp",
        "foo/code/typescript/src/modules/provider/.cargo/bot.hpp",
        "foo/code/cli/.ignore/a.hpp",
        "foo/code/cli/.config/hydra.hpp",
    ];
    let root = tree(&paths);

    let lines =
        run(&[".hpp", "root", "--include-hidden", "--ignore-case", "--exclude", ".ignore"], &root);
    let output = lines.join("\n");
    println!("RESULT:\n{}{}", output, "---".repeat(4));

    assert!(output.contains(".cargo/bot.hpp") && output.contains(".config/hydra.hpp"));
    assert!(!output.contains(".ignore/a.hpp"));
    assert!(!output.contains("target/c.hpp"));
    assert_eq!(lines.len(), 2);
}

#[test]
fn print_help_test() {
    let short: Vec<String> = vec![String::from("-h")];
    assert!(matches!(parse(&short), Ok(Command::Help)));
    assert!(help_lines().join("\n").contains("finr [TARGET] [PATH?] [FLAGS...]"));

    let long: Vec<String> = vec![String::from("--help")];
    assert!(matches!(parse(&long), Ok(Command::Help)));
    assert!(help_lines().join("\n").contains("finr [TARGET] [PATH?] [FLAGS...]"));
}

#[test]
fn help_text_is_exact() {
    let lines = help_lines();
    assert_eq!(lines.len(), 11);
    assert_eq!(lines[0], "finr [TARGET] [PATH?] [FLAGS...]");
    assert_eq!(lines[1], "");
    assert_eq!(
        lines[2],
        "--regex | -R             Use [TARGET] as a regular expression (regex) to match files or directories"
    );
    assert_eq!(
        lines[3],
        "--start | -s             Use [TARGET] to match at the start of files or directories"
    );
    assert_eq!(
        lines[4],
        "--end | -e               Use [TARGET] to match at the end of files or directories"
    );
    assert_eq!(
        lines[5],
        "--ignore-case | -i       The search is case-insensitive. Before processing, transform the name of the entry into lowercase"
    );
    assert_eq!(lines[6], "--max-depth | -d         Maximum depth of search. By default is set to 100");
    assert_eq!(
        lines[7],
        "--type | -t              Type of search. Possible values: f | file | directory | d (By default is set to file)"
    );
    assert_eq!(
        lines[8],
        "--include-hidden | -H    Include all hidden directories in the search. Turned off by default"
    );
    assert_eq!(
        lines[9],
        "--exclude | -E           Directories to exclude in the search. Expects names, not paths"
    );
    assert_eq!(
        lines[10],
        "--include | -I           Directories to include in the search. Expects names, not paths"
    );
    for line in &lines[2..] {
        assert_eq!(line, &format!("{:<24} {}", &line[..24].trim_end(), &line[25..]));
    }
}

#[test]
fn padding() {
    assert_eq!(finr::help::pad_right("ab", 5), "ab   ");
    assert_eq!(finr::help::pad_right("abcde", 5), "abcde");
    assert_eq!(finr::help::pad_right("abcdefg", 5), "abcdefg");
    assert_eq!(finr::help::pad_right("", 0), "");
    assert_eq!(finr::help::pad_right("é", 3), "é  ");
    assert_eq!(finr::help::help_line("-x", "does x"), format!("{:<24} {}", "-x", "does x"));
    assert_eq!(finr::help::FLAG_COLUMN, 24);
}
