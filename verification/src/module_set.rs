//! The set of modules of one chunk, held in a `hashbrown::HashSet`.
//!
//! Verus does not look inside the hash set. What this file says of it is
//! taken from hashbrown's documentation of each method and is believed, not
//! proved.

use vstd::prelude::*;

verus! {

/// A set of module identifiers, backed by `hashbrown::HashSet<String>`.
#[verifier::external_body]
pub struct ModuleSet {
    inner: hashbrown::HashSet<String>,
}

/// The identifiers that a `ModuleSet` holds, each as its characters.
pub uninterp spec fn module_set_contents(set: ModuleSet) -> Set<Seq<char>>;

/// `hashbrown::HashSet::new`: a set that holds nothing.
#[verifier::external_body]
pub(crate) fn module_set_new() -> (set: ModuleSet)
    ensures
        module_set_contents(set) == Set::<Seq<char>>::empty(),
{
    ModuleSet { inner: hashbrown::HashSet::new() }
}

/// `hashbrown::HashSet::insert`: afterwards the set holds `id` besides what it
/// held; the answer is `true` exactly when `id` was not there before.
#[verifier::external_body]
pub(crate) fn module_set_insert(set: &mut ModuleSet, id: String) -> (fresh: bool)
    ensures
        module_set_contents(*final(set)) == module_set_contents(*old(set)).insert(id@),
        fresh == !module_set_contents(*old(set)).contains(id@),
{
    set.inner.insert(id)
}

/// `hashbrown::HashSet::contains`: whether the set holds `id`.
#[verifier::external_body]
pub(crate) fn module_set_contains(set: &ModuleSet, id: &str) -> (held: bool)
    ensures
        held == module_set_contents(*set).contains(id@),
{
    set.inner.contains(id)
}

/// `Clone` of `hashbrown::HashSet`: a set that holds the same identifiers.
#[verifier::external_body]
pub(crate) fn module_set_clone(set: &ModuleSet) -> (copy: ModuleSet)
    ensures
        module_set_contents(copy) == module_set_contents(*set),
{
    ModuleSet { inner: set.inner.clone() }
}

impl ModuleSet {
    /// Whether the set holds the identifier `id`.
    pub fn contains(&self, id: &str) -> (held: bool)
        ensures
            held == module_set_contents(*self).contains(id@),
    {
        module_set_contains(self, id)
    }
}

} // verus!
