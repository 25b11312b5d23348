//! The copy-based ("stable") reorderer: applies a permutation to a vector by
//! gathering duplicates of its elements into a temporary buffer and writing
//! the buffer back. Needs one scratch buffer per sequence, discarded before
//! the sequence's processing ends; elements must be `Clone`.
//!
//! "Stable" names the algorithmic technique — no in-place swap sequencing —
//! and is unrelated to comparison or sort stability.

use crate::model::is_permutation;
use vstd::pervasive::cloned;
use vstd::prelude::*;

verus! {

/// Every element of `post` is a clone of the element of `pre` at the source
/// index the permutation names: `post[i]` duplicates `pre[p[i]]`.
pub open spec fn clones_perm<T: Clone>(pre: Seq<T>, post: Seq<T>, p: Seq<usize>) -> bool {
    &&& post.len() == pre.len()
    &&& forall|i: int| 0 <= i < post.len() ==> cloned::<T>(pre[p[i] as int], #[trigger] post[i])
}

/// Copy-based application to a single vector.
pub(crate) fn apply_stable1<T: Clone>(order: &[usize], v: &mut Vec<T>)
    requires
        is_permutation(order@),
        old(v)@.len() == order@.len(),
    ensures
        clones_perm(old(v)@, final(v)@, order@),
{
    let n = order.len();
    let mut buf: Vec<T> = Vec::new();
    let mut k: usize = 0;
    while k < n
        invariant
            n == order@.len(),
            v@ == old(v)@,
            v@.len() == n,
            is_permutation(order@),
            buf@.len() == k,
            k <= n,
            forall|m: int|
                0 <= m < k ==> cloned::<T>(old(v)@[order@[m] as int], #[trigger] buf@[m]),
        decreases n - k,
    {
        let idx = order[k];
        let c = v[idx].clone();
        buf.push(c);
        k += 1;
    }
    *v = buf;
}

} // verus!
