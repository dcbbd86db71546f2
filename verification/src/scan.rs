//! The first element of a sequence that meets a condition.

use vstd::prelude::*;

verus! {

/// The least index at or after `from` whose element satisfies `p`.
pub open spec fn first_from<T>(s: Seq<T>, p: spec_fn(T) -> bool, from: int) -> Option<int>
    decreases s.len() - from + 1,
{
    if from < 0 || from >= s.len() {
        None
    } else if p(s[from]) {
        Some(from)
    } else {
        first_from(s, p, from + 1)
    }
}

/// The least index whose element satisfies `p`.
pub open spec fn first<T>(s: Seq<T>, p: spec_fn(T) -> bool) -> Option<int> {
    first_from(s, p, 0)
}

/// `first_from` returns an index at or after `from` whose element satisfies
/// `p` and that no such index precedes, and `None` only when there is none.
pub proof fn lemma_first_from<T>(s: Seq<T>, p: spec_fn(T) -> bool, from: int)
    requires
        0 <= from,
    ensures
        match first_from(s, p, from) {
            Some(i) => {
                &&& from <= i < s.len()
                &&& p(s[i])
                &&& forall|k: int| from <= k < i ==> !p(#[trigger] s[k])
            },
            None => forall|k: int| from <= k < s.len() ==> !p(#[trigger] s[k]),
        },
    decreases s.len() - from + 1,
{
    if from >= s.len() {
    } else if p(s[from]) {
    } else {
        lemma_first_from(s, p, from + 1);
    }
}

} // verus!
