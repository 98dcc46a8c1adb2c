//! The match predicate.
//!
//! A name is held against the target in one of four ways. The way is chosen
//! once, from the configuration, and then applied to every name.

use crate::config::{Config, ConfigView, MatchMode};
use crate::pattern::regex_matches;
use crate::text::{begins_with, finishes_with, has_prefix, has_substring, has_suffix, occurs_in};
use vstd::prelude::*;

verus! {

/// Whether `name` satisfies the predicate of `mode` under `config`. In regex
/// mode a configuration without a compiled pattern matches nothing.
pub open spec fn name_matches(mode: MatchMode, name: Seq<char>, config: ConfigView) -> bool {
    match mode {
        MatchMode::Contains => occurs_in(config.target, name),
        MatchMode::Start => begins_with(config.target, name),
        MatchMode::End => finishes_with(config.target, name),
        MatchMode::Regex => match config.regex {
            Some(pattern) => regex_matches(pattern.source, pattern.case_insensitive, name),
            None => false,
        },
    }
}

/// A match predicate: one of the four ways to hold a name against the target.
#[derive(Debug, Clone, Copy, PartialEq, Eq, Structural)]
pub struct MatchFn {
    pub mode: MatchMode,
}

impl MatchFn {
    /// Applies the predicate to `name`.
    pub fn matches(&self, name: &str, config: &Config) -> (found: bool)
        ensures
            found == name_matches(self.mode, name@, config@),
    {
        match self.mode {
            MatchMode::Contains => has_substring(name, config.target.as_str()),
            MatchMode::Start => has_prefix(name, config.target.as_str()),
            MatchMode::End => has_suffix(name, config.target.as_str()),
            MatchMode::Regex => match &config.regex {
                Some(pattern) => pattern.is_match(name),
                None => false,
            },
        }
    }
}

/// The match predicate that `config` asks for.
pub fn get_match_fn(config: &Config) -> (predicate: MatchFn)
    ensures
        predicate.mode == config.match_mode,
{
    MatchFn { mode: config.match_mode }
}

/// An empty target is contained in every name, and every name begins and
/// ends with it.
pub proof fn lemma_empty_target_matches(mode: MatchMode, name: Seq<char>, config: ConfigView)
    requires
        config.target.len() == 0,
        mode != MatchMode::Regex,
    ensures
        name_matches(mode, name, config),
{
    assert(name.subrange(0int, 0int + config.target.len()) =~= config.target);
    assert(name.subrange(name.len() as int, name.len() as int) =~= config.target);
}

} // verus!
