//! Facts about sequences that several proofs share.

use vstd::prelude::*;

verus! {

/// What a sequence holds after a push: what it held, and the new element.
pub proof fn lemma_push_contains<A>(s: Seq<A>, a: A, x: A)
    ensures
        s.push(a).contains(x) <==> (s.contains(x) || x == a),
{
    if s.push(a).contains(x) {
        let i = choose|i: int| 0 <= i < s.push(a).len() && s.push(a)[i] == x;
        if i < s.len() {
            assert(s[i] == x);
        }
    }
    if s.contains(x) {
        let i = choose|i: int| 0 <= i < s.len() && s[i] == x;
        assert(s.push(a)[i] == x);
    }
    assert(s.push(a)[s.len() as int] == a);
}

/// A sequence without duplicates has none after the push of an element
/// that it did not hold.
pub proof fn lemma_push_fresh<A>(s: Seq<A>, a: A)
    requires
        s.no_duplicates(),
        !s.contains(a),
    ensures
        s.push(a).no_duplicates(),
{
    let after = s.push(a);
    assert forall|i: int, j: int|
        0 <= i < after.len() && 0 <= j < after.len() && i != j implies after[i] != after[j] by {
        if i < s.len() && j < s.len() {
            assert(s[i] != s[j]);
        } else if i < s.len() {
            assert(s[i] != a);
        } else {
            assert(s[j] != a);
        }
    }
}

} // verus!
