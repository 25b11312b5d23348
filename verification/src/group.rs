//! Groups of sequences reordered together under one permutation.
//!
//! A group is a value implementing `CoSort` (for the in-place algorithm) or
//! `CoSortStable` (for the copy-based one): a single `Vec`, or a tuple of up
//! to four `Vec`s of freely differing element types. All members must have the
//! permutation's length; the chase decision for each position is computed once
//! and the resulting swap pair applied to every member alike. The tuple
//! pattern extends mechanically to higher arities.

use crate::inplace::apply_in_place1;
use crate::inplace::apply_in_place2;
use crate::inplace::apply_in_place3;
use crate::inplace::apply_in_place4;
use crate::model::apply_perm;
use crate::model::is_permutation;
use crate::permutation::LengthMismatch;
use crate::permutation::Permutation;
use crate::stable::apply_stable1;
use crate::stable::clones_perm;
use vstd::prelude::*;

verus! {

/// A group of mutable sequences the in-place reorderer can rearrange together.
/// Implement it to let `Permutation::co_sort` drive a container of your own.
pub trait CoSort: Sized {
    /// Every member sequence of the group has length `n`.
    spec fn lens_ok(&self, n: int) -> bool;

    /// Every member of `post` is the corresponding member of `pre`,
    /// rearranged by `p`: position `i` holds what was at position `p[i]`.
    spec fn permuted(pre: Self, post: Self, p: Seq<usize>) -> bool;

    /// Rearranges every member of the group in place by `order`, all members
    /// undergoing the identical swaps. Fails with `LengthMismatch`, mutating
    /// nothing, exactly when some member's length differs from `order`'s.
    fn co_sort_with(&mut self, order: &[usize]) -> (r: Result<(), LengthMismatch>)
        requires
            is_permutation(order@),
        ensures
            r is Ok <==> old(self).lens_ok(order@.len() as int),
            r is Ok ==> Self::permuted(*old(self), *final(self), order@),
            r is Err ==> *final(self) == *old(self),
    ;
}

/// A group of mutable sequences the copy-based reorderer can rearrange
/// together; every member's element type must support duplication.
pub trait CoSortStable: Sized {
    /// Every member sequence of the group has length `n`.
    spec fn lens_ok(&self, n: int) -> bool;

    /// Every member of `post` is the corresponding member of `pre` with `p`
    /// applied, each element a duplicate of its source element.
    spec fn permuted_clones(pre: Self, post: Self, p: Seq<usize>) -> bool;

    /// Rearranges every member of the group by `order` through a temporary
    /// buffer per member. Fails with `LengthMismatch`, mutating nothing,
    /// exactly when some member's length differs from `order`'s.
    fn co_sort_stable_with(&mut self, order: &[usize]) -> (r: Result<(), LengthMismatch>)
        requires
            is_permutation(order@),
        ensures
            r is Ok <==> old(self).lens_ok(order@.len() as int),
            r is Ok ==> Self::permuted_clones(*old(self), *final(self), order@),
            r is Err ==> *final(self) == *old(self),
    ;
}

impl Permutation {
    /// Applies the permutation in place to every member of the group: after
    /// the call, position `i` of each member holds the value that resided at
    /// position `self@[i]` before it. Fails with `LengthMismatch`, mutating
    /// nothing, exactly when some member's length differs from the
    /// permutation's. The permutation itself is never mutated.
    pub fn co_sort<T: CoSort>(&self, to_sort: &mut T) -> (r: Result<(), LengthMismatch>)
        requires
            self.valid(),
        ensures
            r is Ok <==> old(to_sort).lens_ok(self@.len() as int),
            r is Ok ==> T::permuted(*old(to_sort), *final(to_sort), self@),
            r is Err ==> *final(to_sort) == *old(to_sort),
    {
        to_sort.co_sort_with(self.as_indices())
    }

    /// Applies the permutation to every member of the group through a
    /// temporary buffer per member: after the call, position `i` of each
    /// member holds a duplicate of the value that resided at position
    /// `self@[i]` before it. Same precondition and failure behaviour as
    /// `co_sort`; additionally every element type must be `Clone`.
    pub fn co_sort_stable<T: CoSortStable>(&self, to_sort: &mut T) -> (r: Result<
        (),
        LengthMismatch,
    >)
        requires
            self.valid(),
        ensures
            r is Ok <==> old(to_sort).lens_ok(self@.len() as int),
            r is Ok ==> T::permuted_clones(*old(to_sort), *final(to_sort), self@),
            r is Err ==> *final(to_sort) == *old(to_sort),
    {
        to_sort.co_sort_stable_with(self.as_indices())
    }
}

impl<A> CoSort for Vec<A> {
    open spec fn lens_ok(&self, n: int) -> bool {
        self@.len() == n
    }

    open spec fn permuted(pre: Self, post: Self, p: Seq<usize>) -> bool {
        post@ == apply_perm(pre@, p)
    }

    fn co_sort_with(&mut self, order: &[usize]) -> (r: Result<(), LengthMismatch>) {
        if self.len() != order.len() {
            return Err(LengthMismatch);
        }
        apply_in_place1(order, self);
        Ok(())
    }
}

impl<A> CoSort for (Vec<A>,) {
    open spec fn lens_ok(&self, n: int) -> bool {
        self.0@.len() == n
    }

    open spec fn permuted(pre: Self, post: Self, p: Seq<usize>) -> bool {
        post.0@ == apply_perm(pre.0@, p)
    }

    fn co_sort_with(&mut self, order: &[usize]) -> (r: Result<(), LengthMismatch>) {
        if self.0.len() != order.len() {
            return Err(LengthMismatch);
        }
        apply_in_place1(order, &mut self.0);
        Ok(())
    }
}

impl<A, B> CoSort for (Vec<A>, Vec<B>) {
    open spec fn lens_ok(&self, n: int) -> bool {
        self.0@.len() == n && self.1@.len() == n
    }

    open spec fn permuted(pre: Self, post: Self, p: Seq<usize>) -> bool {
        post.0@ == apply_perm(pre.0@, p) && post.1@ == apply_perm(pre.1@, p)
    }

    fn co_sort_with(&mut self, order: &[usize]) -> (r: Result<(), LengthMismatch>) {
        if self.0.len() != order.len() || self.1.len() != order.len() {
            return Err(LengthMismatch);
        }
        apply_in_place2(order, &mut self.0, &mut self.1);
        Ok(())
    }
}

impl<A, B, C> CoSort for (Vec<A>, Vec<B>, Vec<C>) {
    open spec fn lens_ok(&self, n: int) -> bool {
        self.0@.len() == n && self.1@.len() == n && self.2@.len() == n
    }

    open spec fn permuted(pre: Self, post: Self, p: Seq<usize>) -> bool {
        post.0@ == apply_perm(pre.0@, p) && post.1@ == apply_perm(pre.1@, p) && post.2@
            == apply_perm(pre.2@, p)
    }

    fn co_sort_with(&mut self, order: &[usize]) -> (r: Result<(), LengthMismatch>) {
        if self.0.len() != order.len() || self.1.len() != order.len() || self.2.len()
            != order.len() {
            return Err(LengthMismatch);
        }
        apply_in_place3(order, &mut self.0, &mut self.1, &mut self.2);
        Ok(())
    }
}

impl<A, B, C, D> CoSort for (Vec<A>, Vec<B>, Vec<C>, Vec<D>) {
    open spec fn lens_ok(&self, n: int) -> bool {
        self.0@.len() == n && self.1@.len() == n && self.2@.len() == n && self.3@.len() == n
    }

    open spec fn permuted(pre: Self, post: Self, p: Seq<usize>) -> bool {
        post.0@ == apply_perm(pre.0@, p) && post.1@ == apply_perm(pre.1@, p) && post.2@
            == apply_perm(pre.2@, p) && post.3@ == apply_perm(pre.3@, p)
    }

    fn co_sort_with(&mut self, order: &[usize]) -> (r: Result<(), LengthMismatch>) {
        if self.0.len() != order.len() || self.1.len() != order.len() || self.2.len()
            != order.len() || self.3.len() != order.len() {
            return Err(LengthMismatch);
        }
        apply_in_place4(order, &mut self.0, &mut self.1, &mut self.2, &mut self.3);
        Ok(())
    }
}

impl<A: Clone> CoSortStable for Vec<A> {
    open spec fn lens_ok(&self, n: int) -> bool {
        self@.len() == n
    }

    open spec fn permuted_clones(pre: Self, post: Self, p: Seq<usize>) -> bool {
        clones_perm(pre@, post@, p)
    }

    fn co_sort_stable_with(&mut self, order: &[usize]) -> (r: Result<(), LengthMismatch>) {
        if self.len() != order.len() {
            return Err(LengthMismatch);
        }
        apply_stable1(order, self);
        Ok(())
    }
}

impl<A: Clone> CoSortStable for (Vec<A>,) {
    open spec fn lens_ok(&self, n: int) -> bool {
        self.0@.len() == n
    }

    open spec fn permuted_clones(pre: Self, post: Self, p: Seq<usize>) -> bool {
        clones_perm(pre.0@, post.0@, p)
    }

    fn co_sort_stable_with(&mut self, order: &[usize]) -> (r: Result<(), LengthMismatch>) {
        if self.0.len() != order.len() {
            return Err(LengthMismatch);
        }
        apply_stable1(order, &mut self.0);
        Ok(())
    }
}

impl<A: Clone, B: Clone> CoSortStable for (Vec<A>, Vec<B>) {
    open spec fn lens_ok(&self, n: int) -> bool {
        self.0@.len() == n && self.1@.len() == n
    }

    open spec fn permuted_clones(pre: Self, post: Self, p: Seq<usize>) -> bool {
        clones_perm(pre.0@, post.0@, p) && clones_perm(pre.1@, post.1@, p)
    }

    fn co_sort_stable_with(&mut self, order: &[usize]) -> (r: Result<(), LengthMismatch>) {
        if self.0.len() != order.len() || self.1.len() != order.len() {
            return Err(LengthMismatch);
        }
        apply_stable1(order, &mut self.0);
        apply_stable1(order, &mut self.1);
        Ok(())
    }
}

impl<A: Clone, B: Clone, C: Clone> CoSortStable for (Vec<A>, Vec<B>, Vec<C>) {
    open spec fn lens_ok(&self, n: int) -> bool {
        self.0@.len() == n && self.1@.len() == n && self.2@.len() == n
    }

    open spec fn permuted_clones(pre: Self, post: Self, p: Seq<usize>) -> bool {
        clones_perm(pre.0@, post.0@, p) && clones_perm(pre.1@, post.1@, p) && clones_perm(
            pre.2@,
            post.2@,
            p,
        )
    }

    fn co_sort_stable_with(&mut self, order: &[usize]) -> (r: Result<(), LengthMismatch>) {
        if self.0.len() != order.len() || self.1.len() != order.len() || self.2.len()
            != order.len() {
            return Err(LengthMismatch);
        }
        apply_stable1(order, &mut self.0);
        apply_stable1(order, &mut self.1);
        apply_stable1(order, &mut self.2);
        Ok(())
    }
}

impl<A: Clone, B: Clone, C: Clone, D: Clone> CoSortStable for (Vec<A>, Vec<B>, Vec<C>, Vec<D>) {
    open spec fn lens_ok(&self, n: int) -> bool {
        self.0@.len() == n && self.1@.len() == n && self.2@.len() == n && self.3@.len() == n
    }

    open spec fn permuted_clones(pre: Self, post: Self, p: Seq<usize>) -> bool {
        clones_perm(pre.0@, post.0@, p) && clones_perm(pre.1@, post.1@, p) && clones_perm(
            pre.2@,
            post.2@,
            p,
        ) && clones_perm(pre.3@, post.3@, p)
    }

    fn co_sort_stable_with(&mut self, order: &[usize]) -> (r: Result<(), LengthMismatch>) {
        if self.0.len() != order.len() || self.1.len() != order.len() || self.2.len()
            != order.len() || self.3.len() != order.len() {
            return Err(LengthMismatch);
        }
        apply_stable1(order, &mut self.0);
        apply_stable1(order, &mut self.1);
        apply_stable1(order, &mut self.2);
        apply_stable1(order, &mut self.3);
        Ok(())
    }
}

} // verus!
