//! Correctness argument for the in-place cycle-chase application.
//!
//! The in-place algorithm walks positions `i` from `0` to `n - 1`. At each
//! `i` it starts from `p[i]` and, while the value is still below `i`,
//! redirects through `p`; a value below `i` names a position whose element an
//! earlier swap has already relocated, and the redirect finds where that
//! element went. Once the value reaches `i` or above, the elements at `i` and
//! at that value are swapped.
//!
//! The proof tracks a ghost permutation `cur`: after the swaps done so far,
//! position `j` of a sequence holds the element that started at source index
//! `cur[j]`. The invariant `inv_state` says that the done prefix of `cur`
//! already agrees with `p`, and that for every pending position `j` the
//! redirect chain from `p[j]` terminates exactly at the position that
//! currently holds the element drawn from source index `p[j]`.

use crate::model::apply_perm;
use crate::model::ident_perm;
use crate::model::is_permutation;
use crate::model::swap_seq;
use crate::model::lemma_ident_perm_is_permutation;
use crate::model::lemma_swap_is_permutation;
use vstd::prelude::*;

verus! {

/// The redirect chain of the cycle chase, bounded by `fuel` steps: starting
/// from `pos`, follow `p` while the value is below the pass index `i`.
pub open spec fn chase_f(p: Seq<usize>, i: int, pos: int, fuel: nat) -> int
    decreases fuel,
{
    if pos < i && fuel > 0 {
        chase_f(p, i, p[pos] as int, (fuel - 1) as nat)
    } else {
        pos
    }
}

/// The redirect chain from `pos` reaches a value at or above `i` in finitely
/// many steps.
pub open spec fn chase_ok(p: Seq<usize>, i: int, pos: int) -> bool {
    exists|fuel: nat| chase_f(p, i, pos, fuel) >= i
}

/// Where the redirect chain from `pos` ends. Meaningful when
/// `chase_ok(p, i, pos)` holds.
pub open spec fn chase(p: Seq<usize>, i: int, pos: int) -> int {
    chase_f(p, i, pos, choose|fuel: nat| chase_f(p, i, pos, fuel) >= i)
}

/// Once the chain has terminated under some fuel, more fuel does not change
/// the result.
pub proof fn lemma_chase_fuel_mono(p: Seq<usize>, i: int, pos: int, f1: nat, f2: nat)
    requires
        chase_f(p, i, pos, f1) >= i,
        f1 <= f2,
    ensures
        chase_f(p, i, pos, f2) == chase_f(p, i, pos, f1),
    decreases f1,
{
    if pos < i {
        lemma_chase_fuel_mono(p, i, p[pos] as int, (f1 - 1) as nat, (f2 - 1) as nat);
    }
}

/// Any fuel that makes the chain terminate yields the one value `chase`
/// denotes.
pub proof fn lemma_chase_unique(p: Seq<usize>, i: int, pos: int, fuel: nat)
    requires
        chase_f(p, i, pos, fuel) >= i,
    ensures
        chase_ok(p, i, pos),
        chase(p, i, pos) == chase_f(p, i, pos, fuel),
        chase(p, i, pos) >= i,
{
    let fc = choose|f: nat| chase_f(p, i, pos, f) >= i;
    if fc <= fuel {
        lemma_chase_fuel_mono(p, i, pos, fc, fuel);
    } else {
        lemma_chase_fuel_mono(p, i, pos, fuel, fc);
    }
}

/// A chain that ends strictly above `i` is unchanged when the bound is raised
/// to `i + 1`: its intermediate values are below `i`, so the raised bound
/// redirects at exactly the same places.
pub proof fn lemma_chase_widen(p: Seq<usize>, i: int, pos: int, fuel: nat)
    requires
        chase_f(p, i, pos, fuel) > i,
    ensures
        chase_f(p, i + 1, pos, fuel) == chase_f(p, i, pos, fuel),
    decreases fuel,
{
    if pos < i && fuel > 0 {
        lemma_chase_widen(p, i, p[pos] as int, (fuel - 1) as nat);
    }
}

/// A chain that ends exactly at `i` is, under the bound `i + 1`, extended by
/// one redirect through `p[i]` and then continues as the chain from `p[i]`.
pub proof fn lemma_chase_through(p: Seq<usize>, i: int, pos: int, f: nat, g: nat)
    requires
        0 <= i < p.len(),
        chase_f(p, i, pos, f) == i,
        chase_f(p, i + 1, p[i] as int, g) >= i + 1,
    ensures
        chase_f(p, i + 1, pos, f + 1 + g) == chase_f(p, i + 1, p[i] as int, g),
    decreases f,
{
    if pos >= i {
        lemma_chase_fuel_mono(p, i + 1, p[i] as int, g, (f + g) as nat);
    } else {
        lemma_chase_through(p, i, p[pos] as int, (f - 1) as nat, g);
    }
}

/// The element drawn from source index `p[j]` sits exactly where the redirect
/// chain from `p[j]` ends.
pub open spec fn target_ok(p: Seq<usize>, cur: Seq<usize>, i: int, j: int) -> bool {
    &&& chase_ok(p, i, p[j] as int)
    &&& i <= chase(p, i, p[j] as int) < p.len()
    &&& cur[chase(p, i, p[j] as int)] == p[j]
}

/// The invariant of the in-place pass before iteration `i`: positions below
/// `i` already hold their final source indices, and every pending target is
/// located by its redirect chain.
pub open spec fn inv_state(p: Seq<usize>, cur: Seq<usize>, i: int) -> bool {
    &&& is_permutation(p)
    &&& is_permutation(cur)
    &&& cur.len() == p.len()
    &&& p.len() <= usize::MAX
    &&& 0 <= i <= p.len()
    &&& forall|j: int| 0 <= j < i ==> #[trigger] cur[j] == p[j]
    &&& forall|j: int| i <= j < p.len() ==> #[trigger] target_ok(p, cur, i, j)
}

pub proof fn lemma_inv_init(p: Seq<usize>)
    requires
        is_permutation(p),
        p.len() <= usize::MAX,
    ensures
        inv_state(p, ident_perm(p.len() as int), 0),
{
    lemma_ident_perm_is_permutation(p.len() as int);
    let cur = ident_perm(p.len() as int);
    assert forall|j: int| 0 <= j < p.len() implies #[trigger] target_ok(p, cur, 0, j) by {
        assert(chase_f(p, 0, p[j] as int, 0) == p[j] as int);
        lemma_chase_unique(p, 0, p[j] as int, 0);
        assert(cur[p[j] as int] == p[j]);
    }
}

/// The induction step: if the invariant holds before iteration `i`, the chase
/// from `p[i]` terminates at a position `t` at or above `i` that holds the
/// element drawn from `p[i]`, and swapping positions `i` and `t` re-establishes
/// the invariant for `i + 1`.
pub proof fn lemma_inv_step(p: Seq<usize>, cur: Seq<usize>, i: int)
    requires
        inv_state(p, cur, i),
        0 <= i < p.len(),
    ensures
        chase_ok(p, i, p[i] as int),
        ({
            let t = chase(p, i, p[i] as int);
            &&& i <= t < p.len()
            &&& cur[t] == p[i]
            &&& inv_state(p, swap_seq(cur, i, t), i + 1)
        }),
{
    assert(target_ok(p, cur, i, i));
    let t = chase(p, i, p[i] as int);
    let f0 = choose|f: nat| chase_f(p, i, p[i] as int, f) >= i;
    lemma_chase_unique(p, i, p[i] as int, f0);
    let cur2 = swap_seq(cur, i, t);
    lemma_swap_is_permutation(cur, i, t);
    assert(cur2[i] == cur[t]);
    assert forall|j: int| i + 1 <= j < p.len() implies #[trigger] target_ok(p, cur2, i + 1, j) by {
        assert(target_ok(p, cur, i, j));
        let tj = chase(p, i, p[j] as int);
        let fj = choose|f: nat| chase_f(p, i, p[j] as int, f) >= i;
        lemma_chase_unique(p, i, p[j] as int, fj);
        if p[j] == cur[i] {
            // The pending element sits at position `i` itself and is displaced
            // by this swap; under the raised bound its chain runs through `i`,
            // redirects to `p[i]`, and ends at `t`, where the swap puts it.
            assert(cur[tj] == cur[i]);
            assert(tj == i);
            assert(t != i) by {
                if t == i {
                    assert(cur[i] == p[i]);
                    assert(p[j] == p[i]);
                    assert(j == i);
                }
            }
            lemma_chase_widen(p, i, p[i] as int, f0);
            lemma_chase_through(p, i, p[j] as int, fj, f0);
            lemma_chase_unique(p, i + 1, p[j] as int, (fj + 1 + f0) as nat);
            assert(chase(p, i + 1, p[j] as int) == t);
            assert(cur2[t] == cur[i]);
        } else {
            // The pending element sits neither at `i` nor at `t`, so the swap
            // does not move it and its chain never meets the value `i`.
            assert(tj != i);
            assert(tj != t) by {
                if tj == t {
                    assert(cur[t] == p[j]);
                    assert(p[j] == p[i]);
                    assert(j == i);
                }
            }
            lemma_chase_widen(p, i, p[j] as int, fj);
            lemma_chase_unique(p, i + 1, p[j] as int, fj);
            assert(chase(p, i + 1, p[j] as int) == tj);
            assert(cur2[tj] == cur[tj]);
        }
    }
}

/// After the last iteration the ghost permutation has become `p` itself.
pub proof fn lemma_inv_end(p: Seq<usize>, cur: Seq<usize>)
    requires
        inv_state(p, cur, p.len() as int),
    ensures
        cur == p,
{
    assert(cur =~= p);
}

/// Exchanging positions `i` and `t` of the ghost permutation mirrors
/// exchanging positions `i` and `t` of an already rearranged sequence.
pub proof fn lemma_apply_swap<A>(s: Seq<A>, cur: Seq<usize>, i: int, t: int)
    requires
        cur.len() == s.len(),
        is_permutation(cur),
        0 <= i < s.len(),
        0 <= t < s.len(),
    ensures
        apply_perm(s, swap_seq(cur, i, t)) == swap_seq(apply_perm(s, cur), i, t),
{
    assert(apply_perm(s, swap_seq(cur, i, t)) =~= swap_seq(apply_perm(s, cur), i, t));
}

/// The executable chase: from `order[i]`, redirect through `order` until the
/// value reaches `i` or above. Returns the position whose element the
/// iteration for `i` must swap into place, for every sequence of the group
/// alike.
pub(crate) fn find_target(order: &[usize], i: usize, Ghost(cur): Ghost<Seq<usize>>) -> (pos:
    usize)
    requires
        inv_state(order@, cur, i as int),
        (i as int) < order@.len(),
    ensures
        i <= pos < order@.len(),
        pos as int == chase(order@, i as int, order@[i as int] as int),
        cur[pos as int] == order@[i as int],
        inv_state(order@, swap_seq(cur, i as int, pos as int), i as int + 1),
{
    proof {
        lemma_inv_step(order@, cur, i as int);
    }
    let ghost t: int = chase(order@, i as int, order@[i as int] as int);
    let ghost mut fuel: nat = choose|f: nat|
        chase_f(order@, i as int, order@[i as int] as int, f) >= i as int;
    proof {
        lemma_chase_unique(order@, i as int, order@[i as int] as int, fuel);
    }
    let n = order.len();
    let mut pos: usize = order[i];
    while pos < i
        invariant
            n == order@.len(),
            i < n,
            is_permutation(order@),
            pos < n,
            i as int <= t < n,
            chase_f(order@, i as int, pos as int, fuel) == t,
        decreases fuel,
    {
        proof {
            assert(fuel > 0);
        }
        pos = order[pos];
        proof {
            fuel = (fuel - 1) as nat;
        }
    }
    proof {
        assert(pos as int == t);
        lemma_inv_step(order@, cur, i as int);
    }
    pos
}

} // verus!
