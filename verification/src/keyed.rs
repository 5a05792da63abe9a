//! The mathematical model of a keyed record table.
//!
//! Every entity collection in this crate (inventories, catalog variants,
//! placed pieces, players, cameras, spawn points) is a `Vec` of records
//! addressed by a key. Lookups are modeled by [`find_first`], the first
//! record satisfying a key predicate, and well-formed tables keep their
//! keys pairwise distinct ([`distinct_keys`]), so the first match is the
//! only match. [`copy_vec`] gives the stores an element-by-element copy
//! for staging changes before they commit.

use vstd::prelude::*;

verus! {

/// The first element of `s` satisfying `p`, scanning from the front;
/// `None` if no element satisfies it.
pub open spec fn find_first<T>(s: Seq<T>, p: spec_fn(T) -> bool) -> Option<T>
    decreases s.len(),
{
    if s.len() == 0 {
        None
    } else if p(s[0]) {
        Some(s[0])
    } else {
        find_first(s.drop_first(), p)
    }
}

/// No two records of `s` share a key under the projection `key`.
pub open spec fn distinct_keys<T, K>(s: Seq<T>, key: spec_fn(T) -> K) -> bool {
    forall|i: int, j: int| 0 <= i < j < s.len() ==> key(s[i]) != key(s[j])
}

/// An element-by-element copy of a record table.
pub(crate) fn copy_vec<T: Copy>(src: &Vec<T>) -> (r: Vec<T>)
    ensures
        r@ == src@,
{
    let mut r: Vec<T> = Vec::new();
    let n = src.len();
    let mut i: usize = 0;
    while i < n
        invariant
            n == src@.len(),
            i <= n,
            r@ == src@.take(i as int),
        decreases n - i,
    {
        r.push(src[i]);
        proof {
            assert(src@.take(i as int).push(src@[i as int]) =~= src@.take(i as int + 1));
        }
        i = i + 1;
    }
    proof {
        assert(src@.take(n as int) =~= src@);
    }
    r
}

/// If `s[i]` satisfies `p` and no earlier element does, the scan stops at `i`.
pub proof fn lemma_find_first_at<T>(s: Seq<T>, p: spec_fn(T) -> bool, i: int)
    requires
        0 <= i < s.len(),
        p(s[i]),
        forall|j: int| 0 <= j < i ==> !p(s[j]),
    ensures
        find_first(s, p) == Some(s[i]),
    decreases i,
{
    if i > 0 {
        lemma_find_first_at(s.drop_first(), p, i - 1);
    }
}

/// If no element satisfies `p`, the scan finds nothing.
pub proof fn lemma_find_first_none<T>(s: Seq<T>, p: spec_fn(T) -> bool)
    requires
        forall|j: int| 0 <= j < s.len() ==> !p(s[j]),
    ensures
        find_first(s, p) is None,
    decreases s.len(),
{
    if s.len() > 0 {
        lemma_find_first_none(s.drop_first(), p);
    }
}

/// If the scan finds nothing, no element satisfies the predicate.
pub proof fn lemma_find_first_none_inv<T>(s: Seq<T>, p: spec_fn(T) -> bool)
    requires
        find_first(s, p) is None,
    ensures
        forall|j: int| 0 <= j < s.len() ==> !p(s[j]),
    decreases s.len(),
{
    if s.len() > 0 {
        lemma_find_first_none_inv(s.drop_first(), p);
        assert forall|j: int| 0 <= j < s.len() implies !p(s[j]) by {
            if j > 0 {
                assert(s.drop_first()[j - 1] == s[j]);
            }
        }
    }
}

/// Two tables of equal length whose matching records agree (and whose
/// records match the predicate at the same positions) yield the same find.
pub proof fn lemma_find_first_agree<T>(s1: Seq<T>, s2: Seq<T>, p: spec_fn(T) -> bool)
    requires
        s1.len() == s2.len(),
        forall|j: int| 0 <= j < s1.len() ==> (p(s1[j]) <==> p(s2[j])),
        forall|j: int| 0 <= j < s1.len() && p(s1[j]) ==> s1[j] == s2[j],
    ensures
        find_first(s1, p) == find_first(s2, p),
    decreases s1.len(),
{
    if s1.len() > 0 && !p(s1[0]) {
        lemma_find_first_agree(s1.drop_first(), s2.drop_first(), p);
    }
}

/// Deleting a record that does not match the predicate leaves the find as it was.
pub proof fn lemma_find_first_remove<T>(s: Seq<T>, p: spec_fn(T) -> bool, i: int)
    requires
        0 <= i < s.len(),
        !p(s[i]),
    ensures
        find_first(s.remove(i), p) == find_first(s, p),
    decreases s.len(),
{
    if i == 0 {
        assert(s.remove(0) =~= s.drop_first());
    } else if p(s[0]) {
        assert(s.remove(i)[0] == s[0]);
    } else {
        assert(s.remove(i)[0] == s[0]);
        assert(s.remove(i).drop_first() =~= s.drop_first().remove(i - 1));
        lemma_find_first_remove(s.drop_first(), p, i - 1);
    }
}

/// Appending a record changes the find only when nothing matched before.
pub proof fn lemma_find_first_push<T>(s: Seq<T>, p: spec_fn(T) -> bool, r: T)
    ensures
        find_first(s, p) is Some ==> find_first(s.push(r), p) == find_first(s, p),
        find_first(s, p) is None && p(r) ==> find_first(s.push(r), p) == Some(r),
        find_first(s, p) is None && !p(r) ==> find_first(s.push(r), p) is None,
    decreases s.len(),
{
    if s.len() == 0 {
        assert(s.push(r)[0] == r);
        assert(s.push(r).drop_first() =~= Seq::<T>::empty());
        assert(find_first(Seq::<T>::empty(), p) is None);
    } else {
        assert(s.push(r)[0] == s[0]);
        assert(s.push(r).drop_first() =~= s.drop_first().push(r));
        lemma_find_first_push(s.drop_first(), p, r);
        if !p(s[0]) {
            assert(find_first(s, p) == find_first(s.drop_first(), p));
            assert(find_first(s.push(r), p) == find_first(s.drop_first().push(r), p));
        }
    }
}

} // verus!
