//! Text operations on names and arguments.
//!
//! Names are compared as sequences of characters. The executable functions
//! here hand the work to the standard library; each states, over `Seq<char>`,
//! what the standard library documents of the call it makes.

use vstd::prelude::*;

verus! {

/// `needle` occurs in `hay` as a contiguous run of characters.
pub open spec fn occurs_in(needle: Seq<char>, hay: Seq<char>) -> bool {
    exists|i: int|
        0 <= i && i + needle.len() <= hay.len() && #[trigger] hay.subrange(i, i + needle.len())
            == needle
}

/// `hay` begins with `needle`.
pub open spec fn begins_with(needle: Seq<char>, hay: Seq<char>) -> bool {
    needle.len() <= hay.len() && hay.subrange(0, needle.len() as int) == needle
}

/// `hay` ends with `needle`.
pub open spec fn finishes_with(needle: Seq<char>, hay: Seq<char>) -> bool {
    needle.len() <= hay.len() && hay.subrange(hay.len() - needle.len(), hay.len() as int) == needle
}

/// The first character of `s` is `c`.
pub open spec fn leads_with(s: Seq<char>, c: char) -> bool {
    s.len() > 0 && s[0] == c
}

/// The lowercase form of a text, as `str::to_lowercase` computes it.
pub uninterp spec fn lowercase(s: Seq<char>) -> Seq<char>;

/// A text without its leading and trailing whitespace, as `str::trim` computes it.
pub uninterp spec fn trimmed(s: Seq<char>) -> Seq<char>;

/// `c` is one of the ten ASCII decimal digits.
pub open spec fn is_decimal_digit(c: char) -> bool {
    '0' <= c && c <= '9'
}

/// The number that a run of decimal digits writes, most significant digit first.
pub open spec fn decimal_value(digits: Seq<char>) -> nat
    decreases digits.len(),
{
    if digits.len() == 0 {
        0
    } else {
        (decimal_value(digits.drop_last()) * 10 + (digits.last() as u32 - '0' as u32)) as nat
    }
}

/// The digits of a decimal numeral: the text without one leading `+`, if it has one.
pub open spec fn numeral_digits(s: Seq<char>) -> Seq<char> {
    if leads_with(s, '+') {
        s.subrange(1, s.len() as int)
    } else {
        s
    }
}

/// The `usize` that a text writes in base ten: an optional `+`, then one or
/// more decimal digits and nothing else, with a value that fits the type.
pub open spec fn decimal_usize(s: Seq<char>) -> Option<usize> {
    let digits = numeral_digits(s);
    if digits.len() > 0 && (forall|i: int| 0 <= i < digits.len() ==> is_decimal_digit(#[trigger] digits[i]))
        && decimal_value(digits) <= usize::MAX {
        Some(decimal_value(digits) as usize)
    } else {
        None
    }
}

/// Calls `str::eq`: two texts are equal exactly when they hold the same
/// characters in the same order.
#[verifier::external_body]
pub(crate) fn same_text(a: &str, b: &str) -> (same: bool)
    ensures
        same == (a@ == b@),
{
    a == b
}

/// Calls `str::contains` with a text as the pattern: true exactly when the
/// pattern is a substring of `hay`.
#[verifier::external_body]
pub(crate) fn has_substring(hay: &str, needle: &str) -> (found: bool)
    ensures
        found == occurs_in(needle@, hay@),
{
    hay.contains(needle)
}

/// Calls `str::starts_with` with a text as the pattern: true exactly when the
/// pattern is a prefix of `hay`.
#[verifier::external_body]
pub(crate) fn has_prefix(hay: &str, needle: &str) -> (found: bool)
    ensures
        found == begins_with(needle@, hay@),
{
    hay.starts_with(needle)
}

/// Calls `str::ends_with` with a text as the pattern: true exactly when the
/// pattern is a suffix of `hay`.
#[verifier::external_body]
pub(crate) fn has_suffix(hay: &str, needle: &str) -> (found: bool)
    ensures
        found == finishes_with(needle@, hay@),
{
    hay.ends_with(needle)
}

/// Calls `str::to_lowercase`. The result is named, not spelled out: it follows
/// the Unicode lowercase mapping, which depends on the text alone.
#[verifier::external_body]
pub(crate) fn to_lowercase(s: &str) -> (lower: String)
    ensures
        lower@ == lowercase(s@),
{
    s.to_lowercase()
}

/// Calls `str::trim`. The result is named, not spelled out: it drops leading
/// and trailing characters with the Unicode property `White_Space`, which
/// depends on the text alone.
#[verifier::external_body]
pub(crate) fn trim<'a>(s: &'a str) -> (inner: &'a str)
    ensures
        inner@ == trimmed(s@),
{
    s.trim()
}

/// Calls `str::parse::<usize>`: the text must be an optional `+` sign followed
/// by decimal digits only, and the number must fit in a `usize`; anything else
/// is an error, given here as `None`.
#[verifier::external_body]
pub(crate) fn parse_usize(s: &str) -> (value: Option<usize>)
    ensures
        value == decimal_usize(s@),
{
    s.parse::<usize>().ok()
}

/// The texts of a list of strings, each as a sequence of characters.
pub open spec fn texts(list: Seq<String>) -> Seq<Seq<char>> {
    Seq::new(list.len(), |i: int| list[i]@)
}

/// A copy of `list` with `last` added at the end.
pub fn with_last(list: &Vec<String>, last: &str) -> (longer: Vec<String>)
    ensures
        texts(longer@) == texts(list@).push(last@),
{
    let mut longer = copy_texts(list);
    longer.push(last.to_owned());
    longer
}

/// A copy of `list`.
pub fn copy_texts(list: &Vec<String>) -> (copy: Vec<String>)
    ensures
        texts(copy@) == texts(list@),
{
    let mut copy: Vec<String> = Vec::new();
    let mut i: usize = 0;
    while i < list.len()
        invariant
            i <= list.len(),
            copy.len() == i,
            forall|k: int| 0 <= k < i ==> copy[k]@ == list[k]@,
        decreases list.len() - i,
    {
        copy.push(list[i].clone());
        i += 1;
    }
    copy
}

/// Whether `s` begins with the character `c`.
pub fn starts_with_char(s: &str, c: char) -> (leads: bool)
    ensures
        leads == leads_with(s@, c),
{
    !s.is_empty() && s.get_char(0) == c
}

} // verus!
