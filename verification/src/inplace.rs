//! The in-place reorderer: applies a permutation to one or more equal-length
//! vectors using only index swaps, no allocation.

use crate::chase::find_target;
use crate::chase::lemma_apply_swap;
use crate::chase::lemma_inv_end;
use crate::chase::lemma_inv_init;
use crate::chase::inv_state;
use crate::model::apply_perm;
use crate::model::ident_perm;
use crate::model::is_permutation;
use crate::model::swap_seq;
use crate::model::lemma_apply_ident;
use vstd::prelude::*;

verus! {

/// Exchange the elements of `v` at positions `i` and `j`, in place.
pub(crate) fn vec_swap<T>(v: &mut Vec<T>, i: usize, j: usize)
    requires
        i < old(v)@.len(),
        j < old(v)@.len(),
    ensures
        final(v)@ == swap_seq(old(v)@, i as int, j as int),
{
    if i == j {
        proof {
            assert(swap_seq(old(v)@, i as int, j as int) =~= old(v)@);
        }
    } else {
        let lo = if i < j { i } else { j };
        let hi = if i < j { j } else { i };
        let s = v.as_mut_slice();
        let (head, tail) = s.split_at_mut(hi);
        let (_, mid) = head.split_at_mut(lo);
        let a = mid.first_mut().unwrap();
        let b = tail.first_mut().unwrap();
        core::mem::swap(a, b);
        proof {
            assert(final(v)@ =~= swap_seq(old(v)@, i as int, j as int));
        }
    }
}

/// In-place application to a single vector.
pub(crate) fn apply_in_place1<A>(order: &[usize], a: &mut Vec<A>)
    requires
        is_permutation(order@),
        old(a)@.len() == order@.len(),
    ensures
        final(a)@ == apply_perm(old(a)@, order@),
{
    let n = order.len();
    let ghost mut cur: Seq<usize> = ident_perm(order@.len() as int);
    proof {
        lemma_inv_init(order@);
        lemma_apply_ident(old(a)@);
    }
    let mut i: usize = 0;
    while i < n
        invariant
            n == order@.len(),
            old(a)@.len() == n,
            i <= n,
            inv_state(order@, cur, i as int),
            a@ == apply_perm(old(a)@, cur),
        decreases n - i,
    {
        let pos = find_target(order, i, Ghost(cur));
        vec_swap(a, i, pos);
        proof {
            lemma_apply_swap(old(a)@, cur, i as int, pos as int);
            cur = swap_seq(cur, i as int, pos as int);
        }
        i += 1;
    }
    proof {
        lemma_inv_end(order@, cur);
    }
}

/// In-place application to two vectors; the chase for each position is
/// computed once and the resulting swap pair applied to both.
pub(crate) fn apply_in_place2<A, B>(order: &[usize], a: &mut Vec<A>, b: &mut Vec<B>)
    requires
        is_permutation(order@),
        old(a)@.len() == order@.len(),
        old(b)@.len() == order@.len(),
    ensures
        final(a)@ == apply_perm(old(a)@, order@),
        final(b)@ == apply_perm(old(b)@, order@),
{
    let n = order.len();
    let ghost mut cur: Seq<usize> = ident_perm(order@.len() as int);
    proof {
        lemma_inv_init(order@);
        lemma_apply_ident(old(a)@);
        lemma_apply_ident(old(b)@);
    }
    let mut i: usize = 0;
    while i < n
        invariant
            n == order@.len(),
            old(a)@.len() == n,
            old(b)@.len() == n,
            i <= n,
            inv_state(order@, cur, i as int),
            a@ == apply_perm(old(a)@, cur),
            b@ == apply_perm(old(b)@, cur),
        decreases n - i,
    {
        let pos = find_target(order, i, Ghost(cur));
        vec_swap(a, i, pos);
        vec_swap(b, i, pos);
        proof {
            lemma_apply_swap(old(a)@, cur, i as int, pos as int);
            lemma_apply_swap(old(b)@, cur, i as int, pos as int);
            cur = swap_seq(cur, i as int, pos as int);
        }
        i += 1;
    }
    proof {
        lemma_inv_end(order@, cur);
    }
}

/// In-place application to three vectors, sharing one chase per position.
pub(crate) fn apply_in_place3<A, B, C>(
    order: &[usize],
    a: &mut Vec<A>,
    b: &mut Vec<B>,
    c: &mut Vec<C>,
)
    requires
        is_permutation(order@),
        old(a)@.len() == order@.len(),
        old(b)@.len() == order@.len(),
        old(c)@.len() == order@.len(),
    ensures
        final(a)@ == apply_perm(old(a)@, order@),
        final(b)@ == apply_perm(old(b)@, order@),
        final(c)@ == apply_perm(old(c)@, order@),
{
    let n = order.len();
    let ghost mut cur: Seq<usize> = ident_perm(order@.len() as int);
    proof {
        lemma_inv_init(order@);
        lemma_apply_ident(old(a)@);
        lemma_apply_ident(old(b)@);
        lemma_apply_ident(old(c)@);
    }
    let mut i: usize = 0;
    while i < n
        invariant
            n == order@.len(),
            old(a)@.len() == n,
            old(b)@.len() == n,
            old(c)@.len() == n,
            i <= n,
            inv_state(order@, cur, i as int),
            a@ == apply_perm(old(a)@, cur),
            b@ == apply_perm(old(b)@, cur),
            c@ == apply_perm(old(c)@, cur),
        decreases n - i,
    {
        let pos = find_target(order, i, Ghost(cur));
        vec_swap(a, i, pos);
        vec_swap(b, i, pos);
        vec_swap(c, i, pos);
        proof {
            lemma_apply_swap(old(a)@, cur, i as int, pos as int);
            lemma_apply_swap(old(b)@, cur, i as int, pos as int);
            lemma_apply_swap(old(c)@, cur, i as int, pos as int);
            cur = swap_seq(cur, i as int, pos as int);
        }
        i += 1;
    }
    proof {
        lemma_inv_end(order@, cur);
    }
}

/// In-place application to four vectors, sharing one chase per position.
pub(crate) fn apply_in_place4<A, B, C, D>(
    order: &[usize],
    a: &mut Vec<A>,
    b: &mut Vec<B>,
    c: &mut Vec<C>,
    d: &mut Vec<D>,
)
    requires
        is_permutation(order@),
        old(a)@.len() == order@.len(),
        old(b)@.len() == order@.len(),
        old(c)@.len() == order@.len(),
        old(d)@.len() == order@.len(),
    ensures
        final(a)@ == apply_perm(old(a)@, order@),
        final(b)@ == apply_perm(old(b)@, order@),
        final(c)@ == apply_perm(old(c)@, order@),
        final(d)@ == apply_perm(old(d)@, order@),
{
    let n = order.len();
    let ghost mut cur: Seq<usize> = ident_perm(order@.len() as int);
    proof {
        lemma_inv_init(order@);
        lemma_apply_ident(old(a)@);
        lemma_apply_ident(old(b)@);
        lemma_apply_ident(old(c)@);
        lemma_apply_ident(old(d)@);
    }
    let mut i: usize = 0;
    while i < n
        invariant
            n == order@.len(),
            old(a)@.len() == n,
            old(b)@.len() == n,
            old(c)@.len() == n,
            old(d)@.len() == n,
            i <= n,
            inv_state(order@, cur, i as int),
            a@ == apply_perm(old(a)@, cur),
            b@ == apply_perm(old(b)@, cur),
            c@ == apply_perm(old(c)@, cur),
            d@ == apply_perm(old(d)@, cur),
        decreases n - i,
    {
        let pos = find_target(order, i, Ghost(cur));
        vec_swap(a, i, pos);
        vec_swap(b, i, pos);
        vec_swap(c, i, pos);
        vec_swap(d, i, pos);
        proof {
            lemma_apply_swap(old(a)@, cur, i as int, pos as int);
            lemma_apply_swap(old(b)@, cur, i as int, pos as int);
            lemma_apply_swap(old(c)@, cur, i as int, pos as int);
            lemma_apply_swap(old(d)@, cur, i as int, pos as int);
            cur = swap_seq(cur, i as int, pos as int);
        }
        i += 1;
    }
    proof {
        lemma_inv_end(order@, cur);
    }
}

} // verus!
