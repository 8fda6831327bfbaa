//! The first position in a sequence at which a predicate holds.

use vstd::prelude::*;

verus! {

/// The least index of `s` whose element satisfies `hit`, if there is one.
pub open spec fn first_index<T>(s: Seq<T>, hit: spec_fn(T) -> bool) -> Option<int>
    decreases s.len(),
{
    if s.len() == 0 {
        None
    } else {
        match first_index(s.drop_last(), hit) {
            Some(i) => Some(i),
            None => if hit(s.last()) {
                Some(s.len() - 1)
            } else {
                None
            },
        }
    }
}

/// `first_index` returns an index that satisfies the predicate and has no
/// satisfying index before it, and returns nothing only where no element
/// satisfies the predicate.
pub proof fn lemma_first_index<T>(s: Seq<T>, hit: spec_fn(T) -> bool)
    ensures
        match first_index(s, hit) {
            Some(i) => 0 <= i < s.len() && hit(s[i]) && forall|j: int|
                0 <= j < i ==> !hit(#[trigger] s[j]),
            None => forall|j: int| 0 <= j < s.len() ==> !hit(#[trigger] s[j]),
        },
    decreases s.len(),
{
    if s.len() > 0 {
        lemma_first_index(s.drop_last(), hit);
        assert(forall|j: int| 0 <= j < s.len() - 1 ==> s.drop_last()[j] == s[j]);
    }
}

/// An index that satisfies the predicate and has no satisfying index before
/// it is the one that `first_index` returns.
pub proof fn lemma_first_index_is<T>(s: Seq<T>, hit: spec_fn(T) -> bool, i: int)
    requires
        0 <= i < s.len(),
        hit(s[i]),
        forall|j: int| 0 <= j < i ==> !hit(#[trigger] s[j]),
    ensures
        first_index(s, hit) == Some(i),
{
    lemma_first_index(s, hit);
}

} // verus!
