//! Facts about sequences.
use vstd::prelude::*;

verus! {

/// Membership in a sequence that was extended by one element.
pub proof fn lemma_push_contains<A>(s: Seq<A>, last: A)
    ensures
        forall|a: A| #[trigger] s.push(last).contains(a) <==> s.contains(a) || a == last,
{
    assert forall|a: A| #[trigger] s.push(last).contains(a) <==> s.contains(a) || a == last by {
        if s.contains(a) {
            let i = choose|i: int| 0 <= i < s.len() && s[i] == a;
            assert(s.push(last)[i] == a);
        }
        if a == last {
            assert(s.push(last)[s.len() as int] == a);
        }
    }
}

} // verus!
