//! The ordering capability a reference sequence's elements must offer so that
//! a permutation can be derived from it: a total preorder, decided executably
//! by `le`. Ties (distinct elements with `le` in both directions) are allowed;
//! which of two tied elements comes first after sorting is unspecified.

use vstd::prelude::*;

verus! {

/// An element type with a total preorder, given executably by `le`.
pub trait Orderable: Sized {
    /// The ordering relation as it appears in specifications.
    spec fn le_spec(self, other: Self) -> bool;

    /// The relation is total (and hence reflexive).
    proof fn lemma_le_total(a: Self, b: Self)
        ensures
            a.le_spec(b) || b.le_spec(a),
    ;

    /// The relation is transitive.
    proof fn lemma_le_transitive(a: Self, b: Self, c: Self)
        requires
            a.le_spec(b),
            b.le_spec(c),
        ensures
            a.le_spec(c),
    ;

    /// The executable comparison, agreeing exactly with `le_spec`.
    fn le(&self, other: &Self) -> (r: bool)
        ensures
            r == self.le_spec(*other),
    ;
}

/// `s` is in ascending order under `le_spec`.
pub open spec fn sorted_by_le<K: Orderable>(s: Seq<K>) -> bool {
    forall|x: int, y: int|
        #![trigger s[x], s[y]]
        0 <= x <= y < s.len() ==> s[x].le_spec(s[y])
}

/// Reading `keys` through `p` visits the keys in ascending order: `p` sorts
/// `keys`.
pub open spec fn sorts_keys<K: Orderable>(keys: Seq<K>, p: Seq<usize>) -> bool {
    forall|x: int, y: int|
        #![trigger p[x], p[y]]
        0 <= x <= y < p.len() ==> keys[p[x] as int].le_spec(keys[p[y] as int])
}

impl Orderable for u8 {
    open spec fn le_spec(self, other: Self) -> bool {
        self <= other
    }

    proof fn lemma_le_total(a: Self, b: Self) {
    }

    proof fn lemma_le_transitive(a: Self, b: Self, c: Self) {
    }

    fn le(&self, other: &Self) -> (r: bool) {
        *self <= *other
    }
}

impl Orderable for u16 {
    open spec fn le_spec(self, other: Self) -> bool {
        self <= other
    }

    proof fn lemma_le_total(a: Self, b: Self) {
    }

    proof fn lemma_le_transitive(a: Self, b: Self, c: Self) {
    }

    fn le(&self, other: &Self) -> (r: bool) {
        *self <= *other
    }
}

impl Orderable for u32 {
    open spec fn le_spec(self, other: Self) -> bool {
        self <= other
    }

    proof fn lemma_le_total(a: Self, b: Self) {
    }

    proof fn lemma_le_transitive(a: Self, b: Self, c: Self) {
    }

    fn le(&self, other: &Self) -> (r: bool) {
        *self <= *other
    }
}

impl Orderable for u64 {
    open spec fn le_spec(self, other: Self) -> bool {
        self <= other
    }

    proof fn lemma_le_total(a: Self, b: Self) {
    }

    proof fn lemma_le_transitive(a: Self, b: Self, c: Self) {
    }

    fn le(&self, other: &Self) -> (r: bool) {
        *self <= *other
    }
}

impl Orderable for usize {
    open spec fn le_spec(self, other: Self) -> bool {
        self <= other
    }

    proof fn lemma_le_total(a: Self, b: Self) {
    }

    proof fn lemma_le_transitive(a: Self, b: Self, c: Self) {
    }

    fn le(&self, other: &Self) -> (r: bool) {
        *self <= *other
    }
}

impl Orderable for i8 {
    open spec fn le_spec(self, other: Self) -> bool {
        self <= other
    }

    proof fn lemma_le_total(a: Self, b: Self) {
    }

    proof fn lemma_le_transitive(a: Self, b: Self, c: Self) {
    }

    fn le(&self, other: &Self) -> (r: bool) {
        *self <= *other
    }
}

impl Orderable for i16 {
    open spec fn le_spec(self, other: Self) -> bool {
        self <= other
    }

    proof fn lemma_le_total(a: Self, b: Self) {
    }

    proof fn lemma_le_transitive(a: Self, b: Self, c: Self) {
    }

    fn le(&self, other: &Self) -> (r: bool) {
        *self <= *other
    }
}

impl Orderable for i32 {
    open spec fn le_spec(self, other: Self) -> bool {
        self <= other
    }

    proof fn lemma_le_total(a: Self, b: Self) {
    }

    proof fn lemma_le_transitive(a: Self, b: Self, c: Self) {
    }

    fn le(&self, other: &Self) -> (r: bool) {
        *self <= *other
    }
}

impl Orderable for i64 {
    open spec fn le_spec(self, other: Self) -> bool {
        self <= other
    }

    proof fn lemma_le_total(a: Self, b: Self) {
    }

    proof fn lemma_le_transitive(a: Self, b: Self, c: Self) {
    }

    fn le(&self, other: &Self) -> (r: bool) {
        *self <= *other
    }
}

impl Orderable for isize {
    open spec fn le_spec(self, other: Self) -> bool {
        self <= other
    }

    proof fn lemma_le_total(a: Self, b: Self) {
    }

    proof fn lemma_le_transitive(a: Self, b: Self, c: Self) {
    }

    fn le(&self, other: &Self) -> (r: bool) {
        *self <= *other
    }
}

impl Orderable for char {
    open spec fn le_spec(self, other: Self) -> bool {
        (self as u32) <= (other as u32)
    }

    proof fn lemma_le_total(a: Self, b: Self) {
    }

    proof fn lemma_le_transitive(a: Self, b: Self, c: Self) {
    }

    fn le(&self, other: &Self) -> (r: bool) {
        (*self as u32) <= (*other as u32)
    }
}

/// Lexicographic order on character sequences, comparing code points.
pub open spec fn lex_le(a: Seq<char>, b: Seq<char>) -> bool
    decreases a.len(),
{
    if a.len() == 0 {
        true
    } else if b.len() == 0 {
        false
    } else if (a[0] as u32) == (b[0] as u32) {
        lex_le(a.drop_first(), b.drop_first())
    } else {
        (a[0] as u32) < (b[0] as u32)
    }
}

pub proof fn lemma_lex_le_total(a: Seq<char>, b: Seq<char>)
    ensures
        lex_le(a, b) || lex_le(b, a),
    decreases a.len(),
{
    if a.len() != 0 && b.len() != 0 && (a[0] as u32) == (b[0] as u32) {
        lemma_lex_le_total(a.drop_first(), b.drop_first());
    }
}

pub proof fn lemma_lex_le_transitive(a: Seq<char>, b: Seq<char>, c: Seq<char>)
    requires
        lex_le(a, b),
        lex_le(b, c),
    ensures
        lex_le(a, c),
    decreases a.len(),
{
    if a.len() != 0 {
        if (a[0] as u32) == (b[0] as u32) && (b[0] as u32) == (c[0] as u32) {
            lemma_lex_le_transitive(a.drop_first(), b.drop_first(), c.drop_first());
        }
    }
}

impl Orderable for String {
    open spec fn le_spec(self, other: Self) -> bool {
        lex_le(self@, other@)
    }

    proof fn lemma_le_total(a: Self, b: Self) {
        lemma_lex_le_total(a@, b@);
    }

    proof fn lemma_le_transitive(a: Self, b: Self, c: Self) {
        lemma_lex_le_transitive(a@, b@, c@);
    }

    fn le(&self, other: &Self) -> (r: bool) {
        let a = self.as_str();
        let b = other.as_str();
        let na = a.unicode_len();
        let nb = b.unicode_len();
        let mut i: usize = 0;
        proof {
            assert(a@.skip(0) =~= a@);
            assert(b@.skip(0) =~= b@);
        }
        while i < na && i < nb
            invariant
                i <= na,
                i <= nb,
                na == a@.len(),
                nb == b@.len(),
                a@ == self@,
                b@ == other@,
                lex_le(self@, other@) == lex_le(a@.skip(i as int), b@.skip(i as int)),
            decreases na - i,
        {
            let ca = a.get_char(i);
            let cb = b.get_char(i);
            if (ca as u32) != (cb as u32) {
                proof {
                    assert(a@.skip(i as int)[0] == a@[i as int]);
                    assert(b@.skip(i as int)[0] == b@[i as int]);
                }
                return (ca as u32) < (cb as u32);
            }
            proof {
                assert(a@.skip(i as int)[0] == a@[i as int]);
                assert(b@.skip(i as int)[0] == b@[i as int]);
                assert(a@.skip(i as int).drop_first() =~= a@.skip(i as int + 1));
                assert(b@.skip(i as int).drop_first() =~= b@.skip(i as int + 1));
            }
            i += 1;
        }
        proof {
            if na <= nb {
                assert(a@.skip(i as int).len() == 0);
            } else {
                assert(b@.skip(i as int).len() == 0);
                assert(a@.skip(i as int).len() > 0);
            }
        }
        na <= nb
    }
}

} // verus!
