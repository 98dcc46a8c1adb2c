//! The search specification.

use crate::names::{empty_names, names};
use crate::pattern::{NamePattern, PatternView};
use fxhash::FxHashSet;
use vstd::prelude::*;

verus! {

/// Directory names that are never descended into unless explicitly asked for.
pub const DEFAULT_EXCLUDE_LIST: [&'static str; 11] = [
    "node_modules",
    "target",
    "debug",
    "__pycache__",
    "cache",
    "output",
    "bower_components",
    "web_modules",
    "out",
    "dist",
    "coverage",
];

/// The names of [`DEFAULT_EXCLUDE_LIST`], as a set.
pub open spec fn default_excludes() -> Set<Seq<char>> {
    Set::new(
        |name: Seq<char>|
            exists|i: int|
                0 <= i < DEFAULT_EXCLUDE_LIST@.len() && (#[trigger] DEFAULT_EXCLUDE_LIST@[i])@
                    == name,
    )
}

/// How the target is held against a name.
#[derive(Debug, Clone, Copy, PartialEq, Eq, Structural)]
pub enum MatchMode {
    /// The name contains the target.
    Contains,
    /// The name begins with the target.
    Start,
    /// The name ends with the target.
    End,
    /// The target, read as a regular expression, matches somewhere in the name.
    Regex,
}

/// What to search for, and where not to look.
#[derive(Debug)]
pub struct Config {
    /// The text, or the source of the regular expression, to look for.
    pub target: String,
    /// Report directories when set, files otherwise.
    pub is_dir: bool,
    pub match_mode: MatchMode,
    /// The compiled target; present in regex mode.
    pub regex: Option<NamePattern>,
    /// How many directories below the start may be entered.
    pub max_depth: usize,
    /// Lowercase each name before it is held against the target.
    pub ignore_case: bool,
    /// Enter directories whose name begins with a dot.
    pub include_hidden: bool,
    /// Names of directories that are not entered.
    pub exclude: FxHashSet<String>,
    /// Names of directories that are entered whatever the other rules say.
    pub included: FxHashSet<String>,
}

/// The mathematical content of a [`Config`].
pub struct ConfigView {
    pub target: Seq<char>,
    pub is_dir: bool,
    pub match_mode: MatchMode,
    pub regex: Option<PatternView>,
    pub max_depth: nat,
    pub ignore_case: bool,
    pub include_hidden: bool,
    pub exclude: Set<Seq<char>>,
    pub included: Set<Seq<char>>,
}

impl ConfigView {
    /// The configuration before any option is applied: look for files whose
    /// name contains the empty target, down to depth 100, with no name
    /// excluded or included.
    pub open spec fn initial() -> ConfigView {
        ConfigView {
            target: Seq::empty(),
            is_dir: false,
            match_mode: MatchMode::Contains,
            regex: None,
            max_depth: 100,
            ignore_case: false,
            include_hidden: false,
            exclude: Set::empty(),
            included: Set::empty(),
        }
    }

    /// A finished configuration: the compiled pattern is there exactly in
    /// regex mode, it was compiled from the target under the case flag, and
    /// the default names are excluded.
    pub open spec fn well_formed(self) -> bool {
        &&& self.match_mode == MatchMode::Regex <==> self.regex is Some
        &&& self.regex matches Some(pattern) ==> pattern.source == self.target
            && pattern.case_insensitive == self.ignore_case
        &&& default_excludes().subset_of(self.exclude)
    }
}

impl View for Config {
    type V = ConfigView;

    open spec fn view(&self) -> ConfigView {
        ConfigView {
            target: self.target@,
            is_dir: self.is_dir,
            match_mode: self.match_mode,
            regex: match self.regex {
                Some(pattern) => Some(pattern@),
                None => None,
            },
            max_depth: self.max_depth as nat,
            ignore_case: self.ignore_case,
            include_hidden: self.include_hidden,
            exclude: names(self.exclude),
            included: names(self.included),
        }
    }
}

impl Default for Config {
    fn default() -> (config: Config)
        ensures
            config@ == ConfigView::initial(),
    {
        Config {
            target: String::new(),
            is_dir: false,
            match_mode: MatchMode::Contains,
            regex: None,
            max_depth: 100,
            ignore_case: false,
            include_hidden: false,
            exclude: empty_names(),
            included: empty_names(),
        }
    }
}

} // verus!
