//! The numeric-aware order on entry paths.
//!
//! Paths are compared segment by segment, a run of digits counting as the
//! integer it spells, so that `file2` stands before `file10`. The comparison
//! itself is the work of the `numeric-sort` crate.

use std::cmp::Ordering;
use vstd::prelude::*;

verus! {

/// How one path stands to another in the numeric-aware order.
#[derive(Clone, Copy, Debug, PartialEq, Eq, Structural)]
pub enum PathOrder {
    /// The first path sorts before the second.
    Before,
    /// Neither sorts before the other.
    Same,
    /// The first path sorts after the second.
    After,
}

impl PathOrder {
    /// The same relation read from the other path's side.
    pub open spec fn flipped(self) -> PathOrder {
        match self {
            PathOrder::Before => PathOrder::After,
            PathOrder::Same => PathOrder::Same,
            PathOrder::After => PathOrder::Before,
        }
    }
}

/// What `numeric_sort::cmp` answers for the strings with the characters `a`
/// and `b`: `Less` as `Before`, `Equal` as `Same`, `Greater` as `After`.
pub uninterp spec fn numeric_order(a: Seq<char>, b: Seq<char>) -> PathOrder;

/// `a` may stand directly in front of `b` in a listing.
pub open spec fn in_order(a: Seq<char>, b: Seq<char>) -> bool {
    numeric_order(a, b) != PathOrder::After
}

/// Calls `numeric_sort::cmp`, which cuts both strings into runs of digits and
/// runs of other text and compares the two lists of runs lexicographically.
///
/// Trusted, not proved: the answer is a function of the two strings alone, and
/// exchanging the arguments turns the answer round. The crate compares run by
/// run with `Ord`, a digit run with another by length and digits, text with
/// text as `str`, so each run comparison is mirrored by the exchanged one.
#[verifier::external_body]
pub(crate) fn compare_paths(a: &str, b: &str) -> (order: PathOrder)
    ensures
        order == numeric_order(a@, b@),
        order.flipped() == numeric_order(b@, a@),
{
    match numeric_sort::cmp(a, b) {
        Ordering::Less => PathOrder::Before,
        Ordering::Equal => PathOrder::Same,
        Ordering::Greater => PathOrder::After,
    }
}

/// How `a` stands to `b` in the numeric-aware order.
pub fn path_order(a: &str, b: &str) -> (order: PathOrder)
    ensures
        order == numeric_order(a@, b@),
        order.flipped() == numeric_order(b@, a@),
{
    compare_paths(a, b)
}

} // verus!
