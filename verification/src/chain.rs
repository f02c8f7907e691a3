//! The chain of alias names visited by one resolution: an insertion-ordered
//! set, so that a name is found in constant time and the chain still reads as
//! the path that was walked.

use vstd::prelude::*;
use indexmap::IndexSet;
use std::collections::hash_map::RandomState;
use crate::text::views;

verus! {

#[verifier::external_type_specification]
#[verifier::external_body]
#[verifier::reject_recursive_types(T)]
#[verifier::reject_recursive_types(S)]
pub struct ExIndexSet<T, S>(IndexSet<T, S>);

/// The names that a chain holds, in the order in which they were inserted.
pub uninterp spec fn visited(chain: IndexSet<String, RandomState>) -> Seq<Seq<char>>;

/// Trusted: `IndexSet::new` of indexmap. The claim is that the new set holds
/// nothing.
#[verifier::external_body]
pub(crate) fn chain_new() -> (chain: IndexSet<String, RandomState>)
    ensures
        visited(chain) == Seq::<Seq<char>>::empty(),
{
    IndexSet::new()
}

/// Trusted: `IndexSet::contains` of indexmap. The claim is that it answers
/// whether a string with the same characters was inserted before.
#[verifier::external_body]
pub(crate) fn chain_contains(chain: &IndexSet<String, RandomState>, name: &str) -> (found: bool)
    ensures
        found == visited(*chain).contains(name@),
{
    chain.contains(name)
}

/// Trusted: `IndexSet::is_empty` of indexmap. The claim is that it answers
/// whether the set holds no name.
#[verifier::external_body]
pub(crate) fn chain_is_empty(chain: &IndexSet<String, RandomState>) -> (empty: bool)
    ensures
        empty == (visited(*chain).len() == 0),
{
    chain.is_empty()
}

/// Trusted: `IndexSet::insert` of indexmap. The claim is that a name which the
/// set does not hold yet goes to the end and `true` comes back, and that a name
/// which it holds leaves the set as it was and `false` comes back.
#[verifier::external_body]
pub(crate) fn chain_insert(chain: &mut IndexSet<String, RandomState>, name: String) -> (added: bool)
    ensures
        added == !visited(*old(chain)).contains(name@),
        visited(*final(chain)) == if added {
            visited(*old(chain)).push(name@)
        } else {
            visited(*old(chain))
        },
{
    chain.insert(name)
}

/// Trusted: `IndexSet::into_iter` of indexmap, collected into a `Vec`. The
/// claim is that the names come out in insertion order, each once.
#[verifier::external_body]
pub(crate) fn chain_into_vec(chain: IndexSet<String, RandomState>) -> (names: Vec<String>)
    ensures
        views(names@) == visited(chain),
{
    chain.into_iter().collect()
}

} // verus!
