//! The first element of a sequence that meets a condition.

use vstd::prelude::*;

verus! {

/// The position of the first element that meets a condition; the length, where none does.
pub open spec fn first_position<A>(s: Seq<A>, meets: spec_fn(A) -> bool) -> int
    decreases s.len(),
{
    if s.len() == 0 || meets(s[0]) {
        0
    } else {
        1 + first_position(s.drop_first(), meets)
    }
}

/// The first element that meets a condition.
pub open spec fn first<A>(s: Seq<A>, meets: spec_fn(A) -> bool) -> Option<A> {
    if first_position(s, meets) < s.len() {
        Some(s[first_position(s, meets)])
    } else {
        None
    }
}

/// The position of the first element that meets a condition is such: no element before it meets
/// the condition, and it does, unless no element does.
pub proof fn first_position_is_first<A>(s: Seq<A>, meets: spec_fn(A) -> bool)
    ensures
        0 <= first_position(s, meets) <= s.len(),
        first_position(s, meets) < s.len() ==> meets(s[first_position(s, meets)]),
        forall|j: int| 0 <= j < first_position(s, meets) ==> !meets(#[trigger] s[j]),
    decreases s.len(),
{
    if s.len() > 0 && !meets(s[0]) {
        let rest = s.drop_first();
        first_position_is_first(rest, meets);
        assert forall|j: int| 0 <= j < first_position(s, meets) implies !meets(
            #[trigger] s[j],
        ) by {
            if j > 0 {
                assert(rest[j - 1] == s[j]);
            }
        }
    }
}

/// A position before which no element meets a condition, and where one does or the sequence ends,
/// is the position of the first that does.
pub proof fn first_position_is<A>(s: Seq<A>, meets: spec_fn(A) -> bool, k: int)
    requires
        0 <= k <= s.len(),
        k < s.len() ==> meets(s[k]),
        forall|j: int| 0 <= j < k ==> !meets(#[trigger] s[j]),
    ensures
        first_position(s, meets) == k,
{
    first_position_is_first(s, meets);
    let p = first_position(s, meets);
    if p < k {
        assert(!meets(s[p]));
    } else if k < p {
        assert(!meets(s[k]));
    }
}

} // verus!
