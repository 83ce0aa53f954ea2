//! Natural ordering of version texts: runs of digits count as numbers, so
//! that `hrev9000` comes before `hrev57000`.

use vstd::prelude::*;

verus! {

/// How one version stands to another.
#[derive(Clone, Copy, Debug, PartialEq, Eq, Structural)]
pub enum VersionOrder {
    Less,
    Equal,
    Greater,
}

/// The answer of `natord::compare` for the texts `left` and `right`. The
/// comparison reads nothing but the two texts.
pub uninterp spec fn natural_order(left: Seq<char>, right: Seq<char>) -> VersionOrder;

/// Calls `natord::compare`, which walks both texts once, skips white space,
/// compares runs of decimal digits as numbers (digit by digit from the left
/// where a run starts with a zero) and other characters one by one. Nothing
/// is claimed of the answer beyond its name.
#[verifier::external_body]
fn natord_compare(left: &str, right: &str) -> (order: VersionOrder)
    ensures
        order == natural_order(left@, right@),
{
    match natord::compare(left, right) {
        std::cmp::Ordering::Less => VersionOrder::Less,
        std::cmp::Ordering::Equal => VersionOrder::Equal,
        std::cmp::Ordering::Greater => VersionOrder::Greater,
    }
}

/// Compares two version texts in natural order.
pub fn compare_versions(left: &str, right: &str) -> (order: VersionOrder)
    ensures
        order == natural_order(left@, right@),
{
    natord_compare(left, right)
}

/// Whether a candidate takes the place of the best version found so far,
/// given how the best stands to the candidate. Among versions that compare
/// equal the one found later wins.
pub open spec fn replaces_best(best_to_candidate: VersionOrder) -> bool {
    best_to_candidate != VersionOrder::Greater
}

/// Decides whether a candidate takes the place of the best version found so
/// far.
pub fn candidate_wins(best_to_candidate: VersionOrder) -> (wins: bool)
    ensures
        wins == replaces_best(best_to_candidate),
{
    match best_to_candidate {
        VersionOrder::Greater => false,
        VersionOrder::Less => true,
        VersionOrder::Equal => true,
    }
}

} // verus!
