//! Strings as sequences of characters: the target delimiter and joined lists.

use vstd::prelude::*;

verus! {

/// A string is a target reference, and no alias name, when it holds `:`.
pub open spec fn is_target(s: Seq<char>) -> bool {
    s.contains(':')
}

/// The character sequences of a list of strings, in order.
pub open spec fn views(names: Seq<String>) -> Seq<Seq<char>> {
    Seq::new(names.len(), |i: int| names[i]@)
}

/// `parts` written one after another with `sep` between neighbours.
pub open spec fn joined(parts: Seq<Seq<char>>, sep: Seq<char>) -> Seq<char>
    decreases parts.len(),
{
    if parts.len() == 0 {
        Seq::empty()
    } else if parts.len() == 1 {
        parts[0]
    } else {
        joined(parts.drop_last(), sep) + sep + parts.last()
    }
}

/// Trusted: `str::contains` of std with a `char` as the pattern. The claim is
/// that it answers whether the character occurs anywhere in the string.
#[verifier::external_body]
pub(crate) fn contains_char(s: &str, c: char) -> (found: bool)
    ensures
        found == s@.contains(c),
{
    s.contains(c)
}

/// Trusted: `Itertools::join` of itertools on the iterator over a list of
/// strings. The claim is that it writes the items in order, each as it stands,
/// with the separator between neighbours and nowhere else. The bound on the
/// separator keeps the capacity that `join` computes up front within `usize`.
#[verifier::external_body]
pub(crate) fn join_names(names: &Vec<String>, sep: &str) -> (text: String)
    requires
        sep@.len() <= 8,
    ensures
        text@ == joined(views(names@), sep@),
{
    itertools::Itertools::join(&mut names.iter(), sep)
}

} // verus!
