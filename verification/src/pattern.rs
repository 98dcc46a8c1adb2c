//! Regular expressions on names.
//!
//! Matching is done by the `regex` crate. Whether a pattern compiles, and
//! whether a compiled pattern matches a text, are named here and not spelled
//! out: both depend only on the pattern's source, its case flag and the text.

use regex::Regex;
use regex::RegexBuilder;
use vstd::prelude::*;

verus! {

/// `regex::Regex`, a compiled regular expression. Nothing is visible of it.
#[verifier::external_type_specification]
#[verifier::external_body]
pub struct ExRegex(regex::Regex);

/// `regex::Error`, the complaint about a pattern that does not compile.
/// Nothing is visible of it.
#[verifier::external_type_specification]
#[verifier::external_body]
pub struct ExRegexError(regex::Error);

/// Whether `regex` accepts `source` as a pattern under the given case flag.
pub uninterp spec fn regex_compiles(source: Seq<char>, case_insensitive: bool) -> bool;

/// Whether the pattern `source`, compiled under the given case flag, finds a
/// match anywhere in `hay`.
pub uninterp spec fn regex_matches(source: Seq<char>, case_insensitive: bool, hay: Seq<char>) -> bool;

/// A compiled regular expression, kept together with what it was compiled
/// from. The fields are private and values are made in one place only, where
/// the pattern is compiled: so the source and the flag of a value are always
/// those of its compiled expression.
#[derive(Debug)]
pub struct NamePattern {
    source: String,
    case_insensitive: bool,
    compiled: Regex,
}

/// What a [`NamePattern`] was compiled from.
pub struct PatternView {
    pub source: Seq<char>,
    pub case_insensitive: bool,
}

impl View for NamePattern {
    type V = PatternView;

    closed spec fn view(&self) -> PatternView {
        PatternView { source: self.source@, case_insensitive: self.case_insensitive }
    }
}

/// Calls `RegexBuilder::new`, `RegexBuilder::case_insensitive` and
/// `RegexBuilder::build`. The pattern either compiles, and the result records
/// the source and the flag it was compiled from, or the builder's error is
/// handed back.
#[verifier::external_body]
fn build(source: &str, case_insensitive: bool) -> (built: Result<NamePattern, regex::Error>)
    ensures
        built is Ok <==> regex_compiles(source@, case_insensitive),
        built is Ok ==> built->Ok_0@ == (PatternView { source: source@, case_insensitive }),
{
    match RegexBuilder::new(source).case_insensitive(case_insensitive).build() {
        Ok(compiled) => Ok(NamePattern { source: source.to_owned(), case_insensitive, compiled }),
        Err(error) => Err(error),
    }
}

/// Calls `Regex::is_match`: true exactly when the compiled pattern finds a
/// match anywhere in `hay`. The compiled pattern is the one that [`build`]
/// made from the source and the flag kept beside it.
#[verifier::external_body]
fn search(pattern: &NamePattern, hay: &str) -> (found: bool)
    ensures
        found == regex_matches(pattern@.source, pattern@.case_insensitive, hay@),
{
    pattern.compiled.is_match(hay)
}

/// Calls `to_string` on a `regex::Error`: the text the `regex` crate gives
/// for a pattern that did not compile. Nothing is claimed of the text.
#[verifier::external_body]
fn error_text(error: &regex::Error) -> (text: String) {
    error.to_string()
}

impl NamePattern {
    /// Compiles `source` as a regular expression that ignores case exactly
    /// when `case_insensitive` is set. Fails, with the text of the compiler's
    /// complaint, exactly when the pattern does not compile.
    pub fn compile(source: &str, case_insensitive: bool) -> (built: Result<NamePattern, String>)
        ensures
            built is Ok <==> regex_compiles(source@, case_insensitive),
            built is Ok ==> built->Ok_0@ == (PatternView { source: source@, case_insensitive }),
    {
        match build(source, case_insensitive) {
            Ok(pattern) => Ok(pattern),
            Err(error) => Err(error_text(&error)),
        }
    }

    /// Whether the pattern finds a match anywhere in `hay`.
    pub fn is_match(&self, hay: &str) -> (found: bool)
        ensures
            found == regex_matches(self@.source, self@.case_insensitive, hay@),
    {
        search(self, hay)
    }

    /// The source text of the pattern.
    pub fn source(&self) -> (source: &str)
        ensures
            source@ == self@.source,
    {
        self.source.as_str()
    }

    /// Whether the pattern was compiled to ignore case.
    pub fn case_insensitive(&self) -> (flag: bool)
        ensures
            flag == self@.case_insensitive,
    {
        self.case_insensitive
    }
}

} // verus!
