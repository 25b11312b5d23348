//! The `Permutation` type: an ordered, length-n bijection over the index range
//! `[0, n)`, built once from a reference sequence and thereafter read-only
//! input to the reordering algorithms.

use crate::inplace::vec_swap;
use crate::model::ident_perm;
use crate::model::is_permutation;
use crate::model::swap_seq;
use crate::model::lemma_swap_is_permutation;
use crate::orderable::Orderable;
use crate::orderable::sorted_by_le;
use crate::orderable::sorts_keys;
use vstd::pervasive::VecAdditionalExecFns;
use vstd::prelude::*;

verus! {

/// The single error kind of this library: a sequence taking part in a
/// reordering call does not have the permutation's length. The call performs
/// no mutation at all when this is reported.
#[derive(Debug, Clone, PartialEq, Eq)]
pub struct LengthMismatch;

/// A bijection over `[0, n)`: `self@[i]` is the source index from which the
/// final element at position `i` is drawn when the permutation is applied.
#[derive(Debug, Clone)]
pub struct Permutation {
    indices: Vec<usize>,
}

impl View for Permutation {
    type V = Seq<usize>;

    closed spec fn view(&self) -> Seq<usize> {
        self.indices@
    }
}

impl Permutation {
    /// Well-formedness: the indices form a bijection over `[0, len)`. Every
    /// constructor of this library establishes it, and nothing mutates a
    /// `Permutation` afterwards.
    pub open spec fn valid(&self) -> bool {
        is_permutation(self@)
    }

    /// The number of positions the permutation rearranges.
    pub fn len(&self) -> (n: usize)
        ensures
            n == self@.len(),
    {
        self.indices.len()
    }

    /// Read-only access to the underlying index sequence.
    pub fn as_indices(&self) -> (s: &[usize])
        ensures
            s@ == self@,
    {
        self.indices.as_slice()
    }

    /// Gives up the permutation and hands out its index sequence, for
    /// advanced use; `from_indices` takes such a sequence back.
    pub fn into_indices(self) -> (v: Vec<usize>)
        ensures
            v@ == self@,
    {
        self.indices
    }

    /// Builds a permutation directly from an index sequence, for advanced
    /// use. Succeeds exactly when the indices form a bijection over
    /// `[0, indices.len())`; anything else is rejected, so that a
    /// `Permutation` is never partially or invalidly constructed.
    pub fn from_indices(indices: Vec<usize>) -> (r: Option<Permutation>)
        ensures
            r is Some <==> is_permutation(indices@),
            r is Some ==> r.unwrap()@ == indices@,
    {
        let n = indices.len();
        let mut seen: Vec<bool> = vec![false; n];
        let mut i: usize = 0;
        while i < n
            invariant
                n == indices@.len(),
                seen@.len() == n,
                i <= n,
                forall|k: int| 0 <= k < i ==> (#[trigger] indices@[k]) < n,
                forall|k1: int, k2: int|
                    0 <= k1 < i && 0 <= k2 < i && k1 != k2 ==> #[trigger] indices@[k1]
                        != #[trigger] indices@[k2],
                forall|j: int|
                    0 <= j < n ==> ((#[trigger] seen@[j]) <==> exists|k: int|
                        0 <= k < i && indices@[k] == j),
            decreases n - i,
        {
            let idx = indices[i];
            if idx >= n || seen[idx] {
                proof {
                    if idx < n {
                        let k = choose|k: int| 0 <= k < i && indices@[k] == idx as int;
                        assert(indices@[k] == indices@[i as int]);
                    }
                }
                return None;
            }
            seen.set(idx, true);
            i += 1;
        }
        Some(Permutation { indices })
    }

    /// Builds the permutation that ascends `keys`: reading `keys` through the
    /// result visits the keys in ascending order. Construction cannot fail;
    /// an empty sequence yields the empty permutation. Among tied keys the
    /// order is unspecified, except that an already sorted sequence yields
    /// the identity permutation.
    pub fn from_orderable<K: Orderable>(keys: &[K]) -> (p: Permutation)
        ensures
            p.valid(),
            p@.len() == keys@.len(),
            sorts_keys(keys@, p@),
            sorted_by_le(keys@) ==> p@ == ident_perm(keys@.len() as int),
    {
        Permutation { indices: sort_indices(keys) }
    }
}

/// Sorts the index range `0..keys.len()` by the key each index points at,
/// with a swap-based insertion sort. On an already sorted key sequence no
/// swap ever fires, so the indices stay the identity.
fn sort_indices<K: Orderable>(keys: &[K]) -> (order: Vec<usize>)
    ensures
        order@.len() == keys@.len(),
        is_permutation(order@),
        sorts_keys(keys@, order@),
        sorted_by_le(keys@) ==> order@ == ident_perm(keys@.len() as int),
{
    let n = keys.len();
    let mut order: Vec<usize> = Vec::new();
    let mut i: usize = 0;
    while i < n
        invariant
            order@.len() == i,
            i <= n,
            forall|k: int| 0 <= k < i ==> order@[k] == k,
        decreases n - i,
    {
        order.push(i);
        i += 1;
    }
    proof {
        assert(order@ =~= ident_perm(n as int));
    }
    let mut a: usize = 0;
    while a < n
        invariant
            n == keys@.len(),
            order@.len() == n,
            a <= n,
            is_permutation(order@),
            forall|x: int, y: int|
                #![trigger order@[x], order@[y]]
                0 <= x <= y < a ==> keys@[order@[x] as int].le_spec(keys@[order@[y] as int]),
            sorted_by_le(keys@) ==> order@ == ident_perm(n as int),
        decreases n - a,
    {
        let mut b: usize = a;
        while b > 0 && !keys[order[b - 1]].le(&keys[order[b]])
            invariant
                n == keys@.len(),
                order@.len() == n,
                a < n,
                b <= a,
                is_permutation(order@),
                forall|x: int, y: int|
                    #![trigger order@[x], order@[y]]
                    0 <= x <= y <= a && x != b && y != b ==> keys@[order@[x] as int].le_spec(
                        keys@[order@[y] as int],
                    ),
                forall|y: int|
                    b < y <= a ==> keys@[order@[b as int] as int].le_spec(
                        #[trigger] keys@[order@[y] as int],
                    ),
                sorted_by_le(keys@) ==> order@ == ident_perm(n as int),
            decreases b,
        {
            proof {
                // The element being inserted is strictly below its left
                // neighbour, so by totality the neighbour admits it on the
                // left; and on sorted keys this situation cannot arise at
                // all, which keeps the identity clause vacuously true.
                K::lemma_le_total(keys@[order@[b - 1] as int], keys@[order@[b as int] as int]);
                if sorted_by_le(keys@) {
                    assert(order@[b - 1] == b - 1 && order@[b as int] == b);
                    assert(keys@[b - 1].le_spec(keys@[b as int]));
                }
                lemma_swap_is_permutation(order@, b - 1, b as int);
            }
            let ghost before = order@;
            vec_swap(&mut order, b - 1, b);
            proof {
                assert forall|x: int, y: int|
                    0 <= x <= y <= a && x != b - 1 && y != b - 1 implies #[trigger] keys@[order@[x] as int].le_spec(
                    #[trigger] keys@[order@[y] as int],
                ) by {
                    if x == b && y == b {
                        K::lemma_le_total(
                            keys@[order@[x] as int],
                            keys@[order@[y] as int],
                        );
                    }
                }
            }
            b = b - 1;
        }
        proof {
            // The inserted element has found its place: everything up to `a`
            // is now sorted, using transitivity through the left neighbour.
            assert forall|x: int, y: int|
                0 <= x <= y <= a implies #[trigger] keys@[order@[x] as int].le_spec(
                #[trigger] keys@[order@[y] as int],
            ) by {
                if x == y {
                    K::lemma_le_total(keys@[order@[x] as int], keys@[order@[y] as int]);
                } else if y == b {
                    // here b > 0 and the loop condition failed:
                    // keys[order[b-1]] <= keys[order[b]]
                    if x < b - 1 {
                        K::lemma_le_transitive(
                            keys@[order@[x] as int],
                            keys@[order@[b - 1] as int],
                            keys@[order@[b as int] as int],
                        );
                    }
                } else if x == b {
                    // y > b: covered by the hole clause of the inner loop
                }
            }
        }
        a = a + 1;
    }
    order
}

} // verus!
