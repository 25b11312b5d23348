//! The mathematical model of a permutation and of applying one to a sequence.

use vstd::prelude::*;

verus! {

/// `p` is a bijection over the index range `[0, p.len())`: every entry is in
/// range and no index appears twice.
pub open spec fn is_permutation(p: Seq<usize>) -> bool {
    &&& forall|i: int| 0 <= i < p.len() ==> (#[trigger] p[i]) < p.len()
    &&& forall|i: int, j: int|
        0 <= i < p.len() && 0 <= j < p.len() && i != j ==> #[trigger] p[i] != #[trigger] p[j]
}

/// The identity permutation of length `n`.
pub open spec fn ident_perm(n: int) -> Seq<usize> {
    Seq::new(n as nat, |i: int| i as usize)
}

/// The result of applying permutation `p` to `s`: position `i` of the result
/// holds the element that `s` had at the source index `p[i]`.
pub open spec fn apply_perm<A>(s: Seq<A>, p: Seq<usize>) -> Seq<A> {
    Seq::new(s.len(), |i: int| s[p[i] as int])
}

/// `s` with the entries at positions `i` and `j` exchanged.
pub open spec fn swap_seq<A>(s: Seq<A>, i: int, j: int) -> Seq<A> {
    s.update(i, s[j]).update(j, s[i])
}

pub proof fn lemma_ident_perm_is_permutation(n: int)
    requires
        0 <= n <= usize::MAX,
    ensures
        is_permutation(ident_perm(n)),
        ident_perm(n).len() == n,
{
}

/// Applying the identity permutation changes nothing.
pub proof fn lemma_apply_ident<A>(s: Seq<A>)
    requires
        s.len() <= usize::MAX,
    ensures
        apply_perm(s, ident_perm(s.len() as int)) == s,
{
    assert(apply_perm(s, ident_perm(s.len() as int)) =~= s);
}

/// Exchanging two in-range positions keeps a sequence a permutation.
pub proof fn lemma_swap_is_permutation(p: Seq<usize>, i: int, j: int)
    requires
        is_permutation(p),
        0 <= i < p.len(),
        0 <= j < p.len(),
    ensures
        is_permutation(swap_seq(p, i, j)),
        swap_seq(p, i, j).len() == p.len(),
{
}

/// Exchanging two elements leaves the multiset of elements unchanged.
pub proof fn lemma_swap_multiset<A>(s: Seq<A>, i: int, j: int)
    requires
        0 <= i < s.len(),
        0 <= j < s.len(),
    ensures
        swap_seq(s, i, j).to_multiset() == s.to_multiset(),
{
    broadcast use vstd::seq_lib::to_multiset_update;
    broadcast use vstd::seq_lib::group_to_multiset_ensures;
    broadcast use vstd::multiset::group_multiset_axioms;

    if i != j {
        let s1 = s.update(i, s[j]);
        assert(s1[j] == s[j]);
        assert(s.contains(s[i]));
        assert(s.to_multiset().count(s[i]) > 0);
        assert(s1.to_multiset() == s.to_multiset().insert(s[j]).remove(s[i]));
        assert(swap_seq(s, i, j).to_multiset() == s1.to_multiset().insert(s[i]).remove(s1[j]));
        assert(swap_seq(s, i, j).to_multiset() =~= s.to_multiset());
    } else {
        assert(swap_seq(s, i, j) =~= s);
    }
}

} // verus!
