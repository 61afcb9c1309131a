//! Bounded prefix comparison on byte strings.

use vstd::prelude::*;

verus! {

/// `q` is a prefix of `s`: `s` is at least as long as `q` and agrees with it
/// on every position of `q`.
pub open spec fn is_prefix_of(q: Seq<u8>, s: Seq<u8>) -> bool {
    q.len() <= s.len() && forall|i: int| 0 <= i < q.len() ==> q[i] == s[i]
}

/// Explicit bounded prefix comparison: does `source` start with `query`?
pub fn starts_with(source: &[u8], query: &[u8]) -> (r: bool)
    ensures
        r == is_prefix_of(query@, source@),
{
    if source.len() < query.len() {
        return false;
    }
    let mut i: usize = 0;
    while i < query.len()
        invariant
            query@.len() <= source@.len(),
            i <= query@.len(),
            forall|j: int| 0 <= j < i ==> query@[j] == source@[j],
        decreases query@.len() - i,
    {
        if source[i] != query[i] {
            return false;
        }
        i = i + 1;
    }
    true
}

} // verus!
