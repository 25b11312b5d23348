//! The general laws of co-sorting, proved from the contracts of the library's
//! functions: what the two reorderers produce, when they agree, and when they
//! are no-ops.

use crate::chase::chase;
use crate::chase::inv_state;
use crate::chase::lemma_apply_swap;
use crate::chase::lemma_inv_end;
use crate::chase::lemma_inv_init;
use crate::chase::lemma_inv_step;
use crate::model::apply_perm;
use crate::model::ident_perm;
use crate::model::is_permutation;
use crate::model::swap_seq;
use crate::model::lemma_apply_ident;
use crate::model::lemma_swap_multiset;
use crate::orderable::Orderable;
use crate::orderable::sorted_by_le;
use crate::orderable::sorts_keys;
use crate::stable::clones_perm;
use vstd::pervasive::cloned;
use vstd::prelude::*;

verus! {

/// Applying a permutation that sorts `keys` — as `Permutation::from_orderable`
/// derives it — leaves the key sequence in ascending order. Together with the
/// reorderers' own contracts (every member of the group becomes
/// `apply_perm(member, p)`), this is what co-sorting promises: the primary
/// ends up sorted and every companion is rearranged by the exact same index
/// mapping.
pub proof fn lemma_sorts_keys_ascends<K: Orderable>(keys: Seq<K>, p: Seq<usize>)
    requires
        is_permutation(p),
        p.len() == keys.len(),
        sorts_keys(keys, p),
    ensures
        sorted_by_le(apply_perm(keys, p)),
{
}

/// Applying a permutation only rearranges: the multiset of elements is
/// unchanged.
pub proof fn lemma_apply_perm_multiset<A>(s: Seq<A>, p: Seq<usize>)
    requires
        is_permutation(p),
        p.len() == s.len(),
        s.len() <= usize::MAX,
    ensures
        apply_perm(s, p).to_multiset() == s.to_multiset(),
{
    lemma_inv_init(p);
    lemma_apply_ident(s);
    lemma_apply_run_multiset(s, p, ident_perm(p.len() as int), 0);
}

/// Helper for `lemma_apply_perm_multiset`: walks the in-place pass in ghost
/// form, one multiset-preserving swap at a time.
proof fn lemma_apply_run_multiset<A>(s: Seq<A>, p: Seq<usize>, cur: Seq<usize>, i: int)
    requires
        inv_state(p, cur, i),
        s.len() == p.len(),
    ensures
        apply_perm(s, p).to_multiset() == apply_perm(s, cur).to_multiset(),
    decreases p.len() - i,
{
    if i == p.len() {
        lemma_inv_end(p, cur);
    } else {
        lemma_inv_step(p, cur, i);
        let t = chase(p, i, p[i] as int);
        lemma_apply_swap(s, cur, i, t);
        lemma_swap_multiset(apply_perm(s, cur), i, t);
        lemma_apply_run_multiset(s, p, swap_seq(cur, i, t), i + 1);
    }
}

/// The in-place and the copy-based application agree: given the same
/// permutation and the same starting contents, they produce the same final
/// contents — for every element type whose duplication preserves the value,
/// which is what the copy-based algorithm asks of its elements.
pub proof fn lemma_stable_agrees_with_in_place<T: Clone>(
    pre: Seq<T>,
    post_in_place: Seq<T>,
    post_stable: Seq<T>,
    p: Seq<usize>,
)
    requires
        is_permutation(p),
        p.len() == pre.len(),
        post_in_place == apply_perm(pre, p),
        clones_perm(pre, post_stable, p),
        forall|a: T, b: T| #[trigger] cloned::<T>(a, b) ==> a == b,
    ensures
        post_stable == post_in_place,
{
    assert(post_stable =~= post_in_place);
}

/// Idempotence after one application: one application leaves the primary
/// sorted; a permutation then re-derived from it is the identity — by
/// `from_orderable`'s contract on sorted input, the hypothesis here — and
/// reapplying it leaves the primary and every companion unchanged.
pub proof fn lemma_rederive_and_reapply_is_noop<K: Orderable, T>(
    keys: Seq<K>,
    p: Seq<usize>,
    q: Seq<usize>,
    companion: Seq<T>,
)
    requires
        is_permutation(p),
        p.len() == keys.len(),
        keys.len() <= usize::MAX,
        companion.len() == keys.len(),
        sorts_keys(keys, p),
        sorted_by_le(apply_perm(keys, p)) ==> q == ident_perm(keys.len() as int),
    ensures
        q == ident_perm(keys.len() as int),
        apply_perm(apply_perm(keys, p), q) == apply_perm(keys, p),
        apply_perm(apply_perm(companion, p), q) == apply_perm(companion, p),
{
    lemma_sorts_keys_ascends(keys, p);
    lemma_apply_ident(apply_perm(keys, p));
    lemma_apply_ident(apply_perm(companion, p));
}

/// The empty group: applying the empty permutation to an empty sequence
/// succeeds and trivially changes nothing.
pub proof fn lemma_apply_empty<T>(s: Seq<T>, p: Seq<usize>)
    requires
        p.len() == 0,
        s.len() == 0,
    ensures
        apply_perm(s, p) == s,
{
    assert(apply_perm(s, p) =~= s);
}

/// Singletons: the only valid permutation of length one is the identity, so
/// application is a no-op.
pub proof fn lemma_apply_singleton<T>(s: Seq<T>, p: Seq<usize>)
    requires
        is_permutation(p),
        p.len() == 1,
        s.len() == 1,
    ensures
        apply_perm(s, p) == s,
{
    assert(p[0] == 0);
    assert(apply_perm(s, p) =~= s);
}

} // verus!
