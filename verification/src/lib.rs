//! Finds files and directories by name in a directory tree.
//!
//! A search walks a tree depth first and reports the entries whose basename
//! satisfies a predicate: it contains, begins with or ends with a target, or
//! matches it as a regular expression. Directories with certain names are
//! not entered.
//!
//! - [`args`] reads a search from a command line.
//! - [`config`] holds what a search looks for, [`matcher`] the predicate.
//! - [`walk`] decides, entry by entry, what the walk does; it reads no
//!   directory itself, so it can be driven over a file system.
//! - [`tree`] runs a whole search over a tree held in memory.
//! - [`laws`] proves what holds of every search.
//! - [`text`], [`names`] and [`pattern`] state what is taken from the
//!   standard library and from the crates `fxhash` and `regex`.

pub mod args;
pub mod config;
pub mod help;
pub mod laws;
pub mod matcher;
pub mod names;
pub mod pattern;
pub mod text;
pub mod tree;
pub mod walk;

pub use crate::config::{Config, MatchMode, DEFAULT_EXCLUDE_LIST};
pub use crate::help::help_lines;
pub use crate::matcher::{get_match_fn, MatchFn};
pub use crate::tree::{find, Node};
pub use crate::walk::{Entry, EntryKind, FindError, FindResult, Step, Walker};
