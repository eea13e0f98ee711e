//! Small integer helpers: floor/ceiling division, bit masks, and bulk
//! removal from vectors, as used by the resource-index formulas and the
//! symbol-occupancy bitmaps.

use vstd::multiset::Multiset;
use vstd::prelude::*;
use vstd::seq_lib::{lemma_multiset_commutative, to_multiset_build, to_multiset_remove};

verus! {

/// Floor of `x / y`.
pub fn floor(x: u32, y: u32) -> (r: u32)
    requires
        y > 0,
    ensures
        r == x as int / y as int,
{
    x / y
}

/// Ceiling of `x / y`, computed as `(x + y - 1) / y`.
pub fn ceil(x: u32, y: u32) -> (r: u32)
    requires
        y > 0,
        x + y <= u32::MAX,
    ensures
        r == (x + y - 1) / y as int,
        y * r >= x,
{
    let r = (x + y - 1) / y;
    proof {
        assert(y * ((x + y - 1) / y as int) >= x) by (nonlinear_arith)
            requires
                y > 0,
        ;
    }
    r
}

/// The bitmask whose bits `[bit_offset, bit_offset + bit_len)` are set.
pub open spec fn mask_spec(bit_offset: u32, bit_len: u32) -> u32
    recommends
        bit_len < 32,
        bit_offset < 32,
{
    (((1u32 << bit_len) - 1) as u32) << bit_offset
}

/// Builds the mask with `bit_len` ones starting at bit `bit_offset`.
pub fn mask(bit_offset: u32, bit_len: u32) -> (r: u32)
    requires
        bit_len < 32,
        bit_offset < 32,
        bit_offset + bit_len <= 32,
    ensures
        r == mask_spec(bit_offset, bit_len),
{
    proof {
        assert(1u32 << bit_len >= 1) by (bit_vector)
            requires
                bit_len < 32,
        ;
    }
    ((1u32 << bit_len) - 1) << bit_offset
}

/// The elements of `s` at the given positions, in position-list order.
pub open spec fn elems_at<T>(s: Seq<T>, idxs: Seq<usize>) -> Seq<T>
    decreases idxs.len(),
{
    if idxs.len() == 0 {
        Seq::empty()
    } else {
        elems_at(s, idxs.drop_last()).push(s[idxs.last() as int])
    }
}

/// `elems_at` maps each position to the element there.
pub proof fn lemma_elems_at_index<T>(s: Seq<T>, idxs: Seq<usize>)
    ensures
        elems_at(s, idxs).len() == idxs.len(),
        forall|q: int| 0 <= q < idxs.len() ==> elems_at(s, idxs)[q] == s[idxs[q] as int],
    decreases idxs.len(),
{
    if idxs.len() > 0 {
        lemma_elems_at_index(s, idxs.drop_last());
    }
}

/// Position lists with the same multiset pick out the same multiset of
/// elements.
proof fn lemma_elems_at_permutation<T>(s: Seq<T>, a: Seq<usize>, b: Seq<usize>)
    requires
        a.to_multiset() == b.to_multiset(),
    ensures
        elems_at(s, a).to_multiset() == elems_at(s, b).to_multiset(),
    decreases a.len(),
{
    broadcast use vstd::multiset::group_multiset_axioms;

    a.to_multiset_ensures();
    b.to_multiset_ensures();
    if a.len() == 0 {
        assert(b.len() == 0);
        assert(elems_at(s, a) =~= elems_at(s, b));
    } else {
        let x = a.last();
        assert(a.contains(x)) by {
            assert(a[a.len() - 1] == x);
        }
        assert(b.to_multiset().count(x) > 0);
        assert(b.contains(x));
        let j = choose|j: int| 0 <= j < b.len() && b[j] == x;
        to_multiset_remove(a, a.len() - 1);
        assert(a.remove(a.len() - 1) =~= a.drop_last());
        to_multiset_remove(b, j);
        lemma_elems_at_permutation(s, a.drop_last(), b.remove(j));
        to_multiset_build(elems_at(s, a.drop_last()), s[x as int]);
        lemma_elems_at_index(s, b);
        lemma_elems_at_index(s, b.remove(j));
        assert(elems_at(s, b.remove(j)) =~= elems_at(s, b).remove(j));
        to_multiset_remove(elems_at(s, b), j);
        elems_at(s, b).to_multiset_ensures();
        assert(elems_at(s, b).contains(s[x as int])) by {
            assert(elems_at(s, b)[j] == s[b[j] as int]);
        }
        assert(elems_at(s, b).to_multiset() =~= elems_at(s, b.remove(j)).to_multiset().insert(
            s[x as int],
        ));
        assert(elems_at(s, a).to_multiset() =~= elems_at(s, b).to_multiset());
    }
}

/// Swap-removing position `i` removes exactly the element at `i` from the
/// multiset of elements.
proof fn lemma_swap_remove_to_multiset<T>(s: Seq<T>, i: int)
    requires
        0 <= i < s.len(),
    ensures
        s.update(i, s.last()).drop_last().to_multiset() == s.to_multiset().remove(s[i]),
{
    broadcast use vstd::multiset::group_multiset_axioms;

    to_multiset_remove(s, i);
    if i == s.len() - 1 {
        assert(s.update(i, s.last()) =~= s);
        assert(s.update(i, s.last()).drop_last() =~= s.remove(i));
    } else {
        let a = s.subrange(0, i);
        let b = s.subrange(i + 1, s.len() - 1);
        let l = seq![s.last()];
        assert(s.update(i, s.last()).drop_last() =~= a + (l + b));
        assert(s.remove(i) =~= a + (b + l));
        lemma_multiset_commutative(a, l + b);
        lemma_multiset_commutative(l, b);
        lemma_multiset_commutative(a, b + l);
        lemma_multiset_commutative(b, l);
        assert((a + (l + b)).to_multiset() =~= (a + (b + l)).to_multiset());
    }
}

/// Inserting an element anywhere adds exactly that element to the multiset.
proof fn lemma_insert_to_multiset<T>(s: Seq<T>, i: int, x: T)
    requires
        0 <= i <= s.len(),
    ensures
        s.insert(i, x).to_multiset() == s.to_multiset().insert(x),
{
    broadcast use vstd::multiset::group_multiset_axioms;

    let t = s.insert(i, x);
    assert(t.remove(i) =~= s);
    to_multiset_remove(t, i);
    assert(t[i] == x);
    t.to_multiset_ensures();
    assert(t.contains(x)) by {
        assert(t[i] == x);
    }
    assert(t.to_multiset() =~= s.to_multiset().insert(x));
}

/// Sorts a vector of indices in non-increasing order, keeping the multiset
/// of its elements.
fn sort_desc(v: &mut Vec<usize>)
    ensures
        final(v)@.to_multiset() == old(v)@.to_multiset(),
        final(v)@.len() == old(v)@.len(),
        forall|a: int, b: int| 0 <= a < b < final(v)@.len() ==> final(v)@[a] >= final(v)@[b],
{
    broadcast use vstd::multiset::group_multiset_axioms;

    let n = v.len();
    let mut out: Vec<usize> = Vec::new();
    proof {
        assert(out@ =~= v@.take(0));
    }
    let mut k: usize = 0;
    while k < n
        invariant
            v@ == old(v)@,
            n == v@.len(),
            0 <= k <= n,
            out@.len() == k,
            out@.to_multiset() == v@.take(k as int).to_multiset(),
            forall|a: int, b: int| 0 <= a < b < out@.len() ==> out@[a] >= out@[b],
        decreases n - k,
    {
        let x = v[k];
        let m = out.len();
        let mut p: usize = 0;
        while p < m
            invariant
                m == out@.len(),
                0 <= p <= m,
                forall|q: int| 0 <= q < p ==> out@[q] >= x,
            ensures
                0 <= p <= m,
                forall|q: int| 0 <= q < p ==> out@[q] >= x,
                p < m ==> out@[p as int] < x,
            decreases m - p,
        {
            if out[p] < x {
                break ;
            }
            p = p + 1;
        }
        let ghost out_before = out@;
        out.insert(p, x);
        proof {
            lemma_insert_to_multiset(out_before, p as int, x);
            assert(v@.take(k + 1) =~= v@.take(k as int).push(v@[k as int]));
            to_multiset_build(v@.take(k as int), v@[k as int]);
            assert forall|a: int, b: int| 0 <= a < b < out@.len() implies out@[a] >= out@[b] by {
                if b < p {
                    assert(out@[a] == out_before[a] && out@[b] == out_before[b]);
                } else if a > p {
                    assert(out@[a] == out_before[a - 1] && out@[b] == out_before[b - 1]);
                } else if b == p as int {
                    assert(out@[a] == out_before[a] && out@[b] == x);
                } else if a == p as int {
                    assert(out@[a] == x && out@[b] == out_before[b - 1]);
                    assert(out_before[p as int] < x);
                    if (p as int) < b - 1 {
                        assert(out_before[p as int] >= out_before[b - 1]);
                    }
                } else {
                    assert(out@[a] == out_before[a] && out@[b] == out_before[b - 1]);
                }
            }
        }
        k = k + 1;
    }
    proof {
        assert(v@.take(n as int) =~= v@);
    }
    *v = out;
}

/// Removes the elements at the given positions, each position counted
/// against the original vector, by repeated swap-removal from the highest
/// position down.  The positions must be distinct and in range; the
/// remaining elements are exactly the original elements minus those at the
/// given positions, in unspecified order.
pub fn swap_remove_multiple<T>(vector: &mut Vec<T>, idx_to_remove: Vec<usize>)
    requires
        forall|a: int, b: int|
            0 <= a < b < idx_to_remove@.len() ==> idx_to_remove@[a] != idx_to_remove@[b],
        forall|a: int| 0 <= a < idx_to_remove@.len() ==> idx_to_remove@[a] < old(vector)@.len(),
    ensures
        final(vector)@.len() == old(vector)@.len() - idx_to_remove@.len(),
        final(vector)@.to_multiset().add(
            elems_at(old(vector)@, idx_to_remove@).to_multiset(),
        ) == old(vector)@.to_multiset(),
{
    broadcast use vstd::multiset::group_multiset_axioms;

    let ghost orig = vector@;
    let mut sorted = idx_to_remove;
    let ghost unsorted = sorted@;
    sort_desc(&mut sorted);
    proof {
        assert(unsorted.no_duplicates());
        unsorted.lemma_multiset_has_no_duplicates();
        sorted@.lemma_multiset_has_no_duplicates_conv();
        assert(sorted@.no_duplicates());
        sorted@.to_multiset_ensures();
        unsorted.to_multiset_ensures();
        assert forall|a: int| 0 <= a < sorted@.len() implies sorted@[a] < orig.len() by {
            assert(sorted@.contains(sorted@[a]));
            assert(unsorted.to_multiset().count(sorted@[a]) > 0);
            assert(unsorted.contains(sorted@[a]));
            let w = choose|w: int| 0 <= w < unsorted.len() && unsorted[w] == sorted@[a];
            assert(unsorted[w] < orig.len());
        }
        lemma_elems_at_permutation(orig, unsorted, sorted@);
        assert(elems_at(orig, sorted@.take(0)) =~= Seq::<T>::empty());
        Seq::<T>::empty().to_multiset_ensures();
        assert(Seq::<T>::empty().to_multiset() =~= Multiset::<T>::empty());
        assert(vector@.to_multiset().add(elems_at(orig, sorted@.take(0)).to_multiset())
            =~= orig.to_multiset());
    }
    let m = sorted.len();
    let mut k: usize = 0;
    while k < m
        invariant
            m == sorted@.len(),
            0 <= k <= m,
            forall|a: int, b: int| 0 <= a < b < m ==> sorted@[a] > sorted@[b],
            forall|a: int| 0 <= a < m ==> sorted@[a] < orig.len(),
            vector@.len() == orig.len() - k,
            k < m ==> sorted@[k as int] < vector@.len(),
            forall|j: int|
                k < m && 0 <= j <= sorted@[k as int] ==> vector@[j] == orig[j],
            vector@.to_multiset().add(elems_at(orig, sorted@.take(k as int)).to_multiset())
                == orig.to_multiset(),
        decreases m - k,
    {
        let i = sorted[k];
        let ghost before = vector@;
        vector.swap_remove(i);
        proof {
            lemma_swap_remove_to_multiset(before, i as int);
            assert(before[i as int] == orig[i as int]);
            before.to_multiset_ensures();
            assert(before.contains(before[i as int])) by {
                assert(0 <= i < before.len());
            }
            assert(before.to_multiset().count(before[i as int]) > 0);
            assert(sorted@.take(k + 1).drop_last() =~= sorted@.take(k as int));
            assert(sorted@.take(k + 1).last() == sorted@[k as int]);
            to_multiset_build(elems_at(orig, sorted@.take(k as int)), orig[i as int]);
            assert(vector@.to_multiset().add(
                elems_at(orig, sorted@.take(k + 1)).to_multiset(),
            ) =~= orig.to_multiset());
        }
        k = k + 1;
    }
    proof {
        assert(sorted@.take(m as int) =~= sorted@);
    }
}

} // verus!
