//! Convenience entry points: derive the permutation from a primary sequence
//! and apply it, in one call, to the primary and its companions. With no
//! companions the call degenerates to sorting the primary directly, building
//! no permutation.

use crate::inplace::apply_in_place2;
use crate::inplace::apply_in_place3;
use crate::inplace::vec_swap;
use crate::model::apply_perm;
use crate::model::is_permutation;
use crate::model::lemma_swap_multiset;
use crate::orderable::Orderable;
use crate::orderable::sorted_by_le;
use crate::orderable::sorts_keys;
use crate::permutation::LengthMismatch;
use crate::permutation::Permutation;
use crate::stable::apply_stable1;
use crate::stable::clones_perm;
use vstd::prelude::*;

verus! {

/// In-place insertion sort of a vector of orderable values: ascending order,
/// same elements, and a no-op on already sorted input.
fn sort_values<K: Orderable>(v: &mut Vec<K>)
    ensures
        sorted_by_le(final(v)@),
        final(v)@.to_multiset() == old(v)@.to_multiset(),
        final(v)@.len() == old(v)@.len(),
        sorted_by_le(old(v)@) ==> final(v)@ == old(v)@,
{
    let n = v.len();
    let mut a: usize = 0;
    while a < n
        invariant
            v@.len() == n,
            a <= n,
            v@.to_multiset() == old(v)@.to_multiset(),
            forall|x: int, y: int|
                #![trigger v@[x], v@[y]]
                0 <= x <= y < a ==> v@[x].le_spec(v@[y]),
            sorted_by_le(old(v)@) ==> v@ == old(v)@,
        decreases n - a,
    {
        let mut b: usize = a;
        while b > 0 && !v[b - 1].le(&v[b])
            invariant
                v@.len() == n,
                a < n,
                b <= a,
                v@.to_multiset() == old(v)@.to_multiset(),
                forall|x: int, y: int|
                    #![trigger v@[x], v@[y]]
                    0 <= x <= y <= a && x != b && y != b ==> v@[x].le_spec(v@[y]),
                forall|y: int| b < y <= a ==> v@[b as int].le_spec(#[trigger] v@[y]),
                sorted_by_le(old(v)@) ==> v@ == old(v)@,
            decreases b,
        {
            proof {
                K::lemma_le_total(v@[b - 1], v@[b as int]);
                if sorted_by_le(old(v)@) {
                    assert(old(v)@[b - 1].le_spec(old(v)@[b as int]));
                }
                lemma_swap_multiset(v@, b - 1, b as int);
            }
            vec_swap(v, b - 1, b);
            proof {
                assert forall|x: int, y: int|
                    0 <= x <= y <= a && x != b - 1 && y != b - 1 implies #[trigger] v@[x].le_spec(
                    #[trigger] v@[y],
                ) by {
                    if x == b && y == b {
                        K::lemma_le_total(v@[x], v@[y]);
                    }
                }
            }
            b = b - 1;
        }
        proof {
            assert forall|x: int, y: int| 0 <= x <= y <= a implies #[trigger] v@[x].le_spec(
                #[trigger] v@[y],
            ) by {
                if x == y {
                    K::lemma_le_total(v@[x], v@[y]);
                } else if y == b {
                    if x < b - 1 {
                        K::lemma_le_transitive(v@[x], v@[b - 1], v@[b as int]);
                    }
                }
            }
        }
        a = a + 1;
    }
}

/// Sorts `primary` ascending, in place. The degenerate co-sort of a group
/// with no companions: the sequence is sorted directly and no permutation is
/// built.
pub fn co_sort1<K: Orderable>(primary: &mut Vec<K>)
    ensures
        sorted_by_le(final(primary)@),
        final(primary)@.to_multiset() == old(primary)@.to_multiset(),
        final(primary)@.len() == old(primary)@.len(),
        sorted_by_le(old(primary)@) ==> final(primary)@ == old(primary)@,
{
    sort_values(primary)
}

/// Derives the permutation that sorts `primary` and applies it in place to
/// `primary` and `c1` together. Fails with `LengthMismatch`, mutating
/// nothing, exactly when the lengths differ.
pub fn co_sort2<K: Orderable, A>(primary: &mut Vec<K>, c1: &mut Vec<A>) -> (r: Result<
    (),
    LengthMismatch,
>)
    ensures
        r is Ok <==> old(c1)@.len() == old(primary)@.len(),
        r is Ok ==> exists|p: Seq<usize>|
            {
                &&& #[trigger] is_permutation(p)
                &&& p.len() == old(primary)@.len()
                &&& sorts_keys(old(primary)@, p)
                &&& final(primary)@ == apply_perm(old(primary)@, p)
                &&& final(c1)@ == apply_perm(old(c1)@, p)
            },
        r is Err ==> *final(primary) == *old(primary) && *final(c1) == *old(c1),
{
    if c1.len() != primary.len() {
        return Err(LengthMismatch);
    }
    let p = Permutation::from_orderable(primary.as_slice());
    apply_in_place2(p.as_indices(), primary, c1);
    proof {
        assert(is_permutation(p@));
    }
    Ok(())
}

/// Derives the permutation that sorts `primary` and applies it in place to
/// `primary`, `c1` and `c2` together. Fails with `LengthMismatch`, mutating
/// nothing, exactly when some length differs from `primary`'s.
pub fn co_sort3<K: Orderable, A, B>(
    primary: &mut Vec<K>,
    c1: &mut Vec<A>,
    c2: &mut Vec<B>,
) -> (r: Result<(), LengthMismatch>)
    ensures
        r is Ok <==> old(c1)@.len() == old(primary)@.len() && old(c2)@.len()
            == old(primary)@.len(),
        r is Ok ==> exists|p: Seq<usize>|
            {
                &&& #[trigger] is_permutation(p)
                &&& p.len() == old(primary)@.len()
                &&& sorts_keys(old(primary)@, p)
                &&& final(primary)@ == apply_perm(old(primary)@, p)
                &&& final(c1)@ == apply_perm(old(c1)@, p)
                &&& final(c2)@ == apply_perm(old(c2)@, p)
            },
        r is Err ==> *final(primary) == *old(primary) && *final(c1) == *old(c1) && *final(c2)
            == *old(c2),
{
    if c1.len() != primary.len() || c2.len() != primary.len() {
        return Err(LengthMismatch);
    }
    let p = Permutation::from_orderable(primary.as_slice());
    apply_in_place3(p.as_indices(), primary, c1, c2);
    proof {
        assert(is_permutation(p@));
    }
    Ok(())
}

/// Sorts `primary` ascending, in place; the copy-tolerant flavour of
/// `co_sort1`, which for a lone primary does the same direct sort.
pub fn co_sort_stable1<K: Orderable>(primary: &mut Vec<K>)
    ensures
        sorted_by_le(final(primary)@),
        final(primary)@.to_multiset() == old(primary)@.to_multiset(),
        final(primary)@.len() == old(primary)@.len(),
        sorted_by_le(old(primary)@) ==> final(primary)@ == old(primary)@,
{
    sort_values(primary)
}

/// Derives the permutation that sorts `primary` and applies it, through a
/// temporary buffer per sequence, to `primary` and `c1`. Fails with
/// `LengthMismatch`, mutating nothing, exactly when the lengths differ.
pub fn co_sort_stable2<K: Orderable + Clone, A: Clone>(
    primary: &mut Vec<K>,
    c1: &mut Vec<A>,
) -> (r: Result<(), LengthMismatch>)
    ensures
        r is Ok <==> old(c1)@.len() == old(primary)@.len(),
        r is Ok ==> exists|p: Seq<usize>|
            {
                &&& #[trigger] is_permutation(p)
                &&& p.len() == old(primary)@.len()
                &&& sorts_keys(old(primary)@, p)
                &&& clones_perm(old(primary)@, final(primary)@, p)
                &&& clones_perm(old(c1)@, final(c1)@, p)
            },
        r is Err ==> *final(primary) == *old(primary) && *final(c1) == *old(c1),
{
    if c1.len() != primary.len() {
        return Err(LengthMismatch);
    }
    let p = Permutation::from_orderable(primary.as_slice());
    apply_stable1(p.as_indices(), primary);
    apply_stable1(p.as_indices(), c1);
    proof {
        assert(is_permutation(p@));
    }
    Ok(())
}

/// Derives the permutation that sorts `primary` and applies it, through a
/// temporary buffer per sequence, to `primary`, `c1` and `c2`. Fails with
/// `LengthMismatch`, mutating nothing, exactly when some length differs.
pub fn co_sort_stable3<K: Orderable + Clone, A: Clone, B: Clone>(
    primary: &mut Vec<K>,
    c1: &mut Vec<A>,
    c2: &mut Vec<B>,
) -> (r: Result<(), LengthMismatch>)
    ensures
        r is Ok <==> old(c1)@.len() == old(primary)@.len() && old(c2)@.len()
            == old(primary)@.len(),
        r is Ok ==> exists|p: Seq<usize>|
            {
                &&& #[trigger] is_permutation(p)
                &&& p.len() == old(primary)@.len()
                &&& sorts_keys(old(primary)@, p)
                &&& clones_perm(old(primary)@, final(primary)@, p)
                &&& clones_perm(old(c1)@, final(c1)@, p)
                &&& clones_perm(old(c2)@, final(c2)@, p)
            },
        r is Err ==> *final(primary) == *old(primary) && *final(c1) == *old(c1) && *final(c2)
            == *old(c2),
{
    if c1.len() != primary.len() || c2.len() != primary.len() {
        return Err(LengthMismatch);
    }
    let p = Permutation::from_orderable(primary.as_slice());
    apply_stable1(p.as_indices(), primary);
    apply_stable1(p.as_indices(), c1);
    apply_stable1(p.as_indices(), c2);
    proof {
        assert(is_permutation(p@));
    }
    Ok(())
}

} // verus!
