//! Sets of directory names.
//!
//! A set of names is an `FxHashSet<String>`: the standard hash set with the
//! `fxhash` hasher. Its content is modelled as a mathematical set of
//! character sequences, and the few operations the crate needs are stated
//! over that model.

use fxhash::FxHashSet;
use vstd::prelude::*;

verus! {

/// `fxhash::FxHasher`, the hasher of the sets. Nothing is said of it.
#[verifier::external_type_specification]
#[verifier::external_body]
pub struct ExFxHasher(fxhash::FxHasher);

/// `std::hash::BuildHasherDefault`, which makes a hasher by `Default`.
/// Nothing is said of it.
#[verifier::external_type_specification]
#[verifier::external_body]
#[verifier::reject_recursive_types(H)]
pub struct ExBuildHasherDefault<H>(std::hash::BuildHasherDefault<H>);

/// The names that a set holds: the texts of the strings in it.
pub uninterp spec fn names(set: FxHashSet<String>) -> Set<Seq<char>>;

/// Calls `FxHashSet::default`, which builds a hash set with no element.
#[verifier::external_body]
pub(crate) fn empty_names() -> (set: FxHashSet<String>)
    ensures
        names(set) == Set::<Seq<char>>::empty(),
{
    FxHashSet::default()
}

/// Calls `HashSet::contains`: true exactly when the set holds a string equal
/// to `name`.
#[verifier::external_body]
pub(crate) fn holds_name(set: &FxHashSet<String>, name: &str) -> (held: bool)
    ensures
        held == names(*set).contains(name@),
{
    set.contains(name)
}

/// Calls `HashSet::insert`: afterwards the set holds `name` and everything it
/// held before, and nothing else.
#[verifier::external_body]
pub(crate) fn add_name(set: &mut FxHashSet<String>, name: String)
    ensures
        names(*final(set)) == names(*old(set)).insert(name@),
{
    set.insert(name);
}

} // verus!
