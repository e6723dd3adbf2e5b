//! Stable bubble sort, the way the rank list orders users and their problems.

use vstd::prelude::*;

verus! {

/// `gt` is a strict weak order: irreflexive, asymmetric, and "not greater" is transitive.
pub open spec fn strict_weak_order<T>(gt: spec_fn(T, T) -> bool) -> bool {
    &&& forall|a: T| !#[trigger] gt(a, a)
    &&& forall|a: T, b: T| #[trigger] gt(a, b) ==> !gt(b, a)
    &&& forall|a: T, b: T, c: T|
        #![trigger gt(a, b), gt(b, c)]
        #![trigger gt(a, b), gt(a, c)]
        #![trigger gt(b, c), gt(a, c)]
        !gt(a, b) && !gt(b, c) ==> !gt(a, c)
}

/// `perm` lists each of `0..n` once.
pub open spec fn is_permutation(perm: Seq<int>, n: int) -> bool {
    &&& perm.len() == n
    &&& forall|k: int| 0 <= k < n ==> 0 <= #[trigger] perm[k] < n
    &&& forall|p: int, q: int| 0 <= p < q < n ==> #[trigger] perm[p] != #[trigger] perm[q]
}

/// `r` is `o` reordered by `perm`, sorted so that no element is greater than a
/// later one, and elements that are not ordered either way keep their order.
pub open spec fn is_stable_sort_by<T>(
    r: Seq<T>,
    o: Seq<T>,
    gt: spec_fn(T, T) -> bool,
    perm: Seq<int>,
) -> bool {
    &&& r.len() == o.len()
    &&& is_permutation(perm, o.len() as int)
    &&& forall|k: int| 0 <= k < r.len() ==> #[trigger] r[k] == o[perm[k]]
    &&& forall|p: int, q: int| 0 <= p < q < r.len() ==> !gt(#[trigger] r[p], #[trigger] r[q])
    &&& forall|p: int, q: int|
        0 <= p < q < r.len() && !gt(#[trigger] r[q], #[trigger] r[p]) ==> perm[p] < perm[q]
}

/// `r` is the stable sort of `o` by `gt`.
pub open spec fn is_stable_sort<T>(r: Seq<T>, o: Seq<T>, gt: spec_fn(T, T) -> bool) -> bool {
    exists|perm: Seq<int>| is_stable_sort_by(r, o, gt, perm)
}

/// The bubble sort's state after some passes: `s` is `o` reordered by `perm`,
/// equal-ranked elements keep the order they had in `o`, and the last `done`
/// places hold the largest elements in order.
spec fn bubble_inv<T>(s: Seq<T>, o: Seq<T>, gt: spec_fn(T, T) -> bool, perm: Seq<int>, done: int) -> bool {
    &&& s.len() == o.len()
    &&& 0 <= done <= s.len()
    &&& is_permutation(perm, o.len() as int)
    &&& forall|k: int| 0 <= k < s.len() ==> #[trigger] s[k] == o[perm[k]]
    &&& forall|p: int, q: int|
        0 <= p < q < s.len() && s.len() - done <= q ==> !gt(#[trigger] s[p], #[trigger] s[q])
    &&& forall|p: int, q: int|
        0 <= p < q < s.len() && !gt(#[trigger] s[q], #[trigger] s[p]) && !gt(s[p], s[q])
            ==> perm[p] < perm[q]
}

proof fn lemma_swap_adjacent<T>(
    s: Seq<T>,
    o: Seq<T>,
    gt: spec_fn(T, T) -> bool,
    perm: Seq<int>,
    done: int,
    j: int,
)
    requires
        strict_weak_order(gt),
        bubble_inv(s, o, gt, perm, done),
        0 <= j,
        j + 1 < s.len() - done,
        gt(s[j], s[j + 1]),
        forall|p: int| 0 <= p < j ==> !gt(#[trigger] s[p], s[j]),
    ensures
        ({
            let s2 = s.update(j, s[j + 1]).update(j + 1, s[j]);
            let perm2 = perm.update(j, perm[j + 1]).update(j + 1, perm[j]);
            &&& bubble_inv(s2, o, gt, perm2, done)
            &&& forall|p: int| 0 <= p < j + 1 ==> !gt(#[trigger] s2[p], s2[j + 1])
        }),
{
    let s2 = s.update(j, s[j + 1]).update(j + 1, s[j]);
    let perm2 = perm.update(j, perm[j + 1]).update(j + 1, perm[j]);
    let n = s.len();
    assert forall|p: int, q: int| 0 <= p < q < n implies #[trigger] perm2[p] != #[trigger] perm2[q] by {
        let pp = if p == j { j + 1 } else if p == j + 1 { j } else { p };
        let qq = if q == j { j + 1 } else if q == j + 1 { j } else { q };
        assert(perm2[p] == perm[pp]);
        assert(perm2[q] == perm[qq]);
        if pp < qq {
            assert(perm[pp] != perm[qq]);
        } else {
            assert(perm[qq] != perm[pp]);
        }
    }
    assert forall|k: int| 0 <= k < n implies 0 <= #[trigger] perm2[k] < n by {
        if k == j {
            assert(perm2[k] == perm[j + 1]);
        } else if k == j + 1 {
            assert(perm2[k] == perm[j]);
        } else {
            assert(perm2[k] == perm[k]);
        }
    }
    assert forall|k: int| 0 <= k < n implies #[trigger] s2[k] == o[perm2[k]] by {
        if k == j {
            assert(s2[k] == s[j + 1]);
        } else if k == j + 1 {
            assert(s2[k] == s[j]);
        } else {
            assert(s2[k] == s[k]);
        }
    }
    assert forall|p: int, q: int|
        0 <= p < q < n && n - done <= q implies !gt(#[trigger] s2[p], #[trigger] s2[q]) by {
        assert(s2[q] == s[q]);
        if p == j {
            assert(s2[p] == s[j + 1]);
            assert(!gt(s[j + 1], s[q]));
        } else if p == j + 1 {
            assert(s2[p] == s[j]);
            assert(!gt(s[j], s[q]));
        } else {
            assert(s2[p] == s[p]);
            assert(!gt(s[p], s[q]));
        }
    }
    assert forall|p: int, q: int|
        0 <= p < q < n && !gt(#[trigger] s2[q], #[trigger] s2[p]) && !gt(s2[p], s2[q]) implies perm2[p]
        < perm2[q] by {
        if p == j && q == j + 1 {
            assert(s2[p] == s[j + 1]);
            assert(s2[q] == s[j]);
            assert(gt(s[j], s[j + 1]));
            assert(false);
        } else {
            let pp = if p == j { j + 1 } else if p == j + 1 { j } else { p };
            let qq = if q == j { j + 1 } else if q == j + 1 { j } else { q };
            assert(s2[p] == s[pp]);
            assert(s2[q] == s[qq]);
            assert(perm2[p] == perm[pp]);
            assert(perm2[q] == perm[qq]);
            assert(pp < qq);
            assert(!gt(s[qq], s[pp]) && !gt(s[pp], s[qq]));
        }
    }
    assert forall|p: int| 0 <= p < j + 1 implies !gt(#[trigger] s2[p], s2[j + 1]) by {
        assert(s2[j + 1] == s[j]);
        if p == j {
            assert(s2[p] == s[j + 1]);
            assert(!gt(s[j + 1], s[j]));
        } else {
            assert(s2[p] == s[p]);
        }
    }
}

proof fn lemma_no_swap<T>(s: Seq<T>, gt: spec_fn(T, T) -> bool, j: int)
    requires
        strict_weak_order(gt),
        0 <= j,
        j + 1 < s.len(),
        !gt(s[j], s[j + 1]),
        forall|p: int| 0 <= p < j ==> !gt(#[trigger] s[p], s[j]),
    ensures
        forall|p: int| 0 <= p < j + 1 ==> !gt(#[trigger] s[p], s[j + 1]),
{
    assert forall|p: int| 0 <= p < j + 1 implies !gt(#[trigger] s[p], s[j + 1]) by {
        if p < j {
            assert(!gt(s[p], s[j]));
        }
    }
}

proof fn lemma_pass_done<T>(s: Seq<T>, o: Seq<T>, gt: spec_fn(T, T) -> bool, perm: Seq<int>, done: int)
    requires
        strict_weak_order(gt),
        bubble_inv(s, o, gt, perm, done),
        done < s.len(),
        forall|p: int| 0 <= p < s.len() - done - 1 ==> !gt(#[trigger] s[p], s[s.len() - done - 1]),
    ensures
        bubble_inv(s, o, gt, perm, done + 1),
{
    let n = s.len();
    assert forall|p: int, q: int|
        0 <= p < q < n && n - (done + 1) <= q implies !gt(#[trigger] s[p], #[trigger] s[q]) by {
        if q == n - done - 1 {
            assert(!gt(s[p], s[n - done - 1]));
        }
    }
}

/// Sorts `v` by bubble sort, swapping neighbours `a`, `b` exactly when
/// `swap_needed(a, b)` (which computes `gt(a, b)`).
pub fn stable_sort<T, F: Fn(&T, &T) -> bool>(
    v: &mut Vec<T>,
    swap_needed: F,
    Ghost(gt): Ghost<spec_fn(T, T) -> bool>,
)
    requires
        strict_weak_order(gt),
        forall|a: &T, b: &T| swap_needed.requires((a, b)),
        forall|a: &T, b: &T, r: bool| swap_needed.ensures((a, b), r) ==> r == gt(*a, *b),
    ensures
        is_stable_sort(final(v)@, old(v)@, gt),
{
    let n = v.len();
    let ghost o = v@;
    let ghost mut perm = Seq::new(n as nat, |k: int| k);
    for i in 0..n
        invariant
            n == v.len(),
            o == old(v)@,
            strict_weak_order(gt),
            forall|a: &T, b: &T| swap_needed.requires((a, b)),
            forall|a: &T, b: &T, r: bool| swap_needed.ensures((a, b), r) ==> r == gt(*a, *b),
            bubble_inv(v@, o, gt, perm, i as int),
    {
        for j in 0..(n - i - 1)
            invariant
                n == v.len(),
                i < n,
                o == old(v)@,
                strict_weak_order(gt),
                forall|a: &T, b: &T| swap_needed.requires((a, b)),
                forall|a: &T, b: &T, r: bool| swap_needed.ensures((a, b), r) ==> r == gt(*a, *b),
                bubble_inv(v@, o, gt, perm, i as int),
                forall|p: int| 0 <= p < j ==> !gt(#[trigger] v@[p], v@[j as int]),
        {
            let swap = swap_needed(&v[j], &v[j + 1]);
            if swap {
                proof {
                    lemma_swap_adjacent(v@, o, gt, perm, i as int, j as int);
                    perm = perm.update(j as int, perm[j + 1]).update(j + 1, perm[j as int]);
                }
                let ghost before = v@;
                let x = v.remove(j + 1);
                v.insert(j, x);
                proof {
                    assert(v@ =~= before.update(j as int, before[j + 1]).update(j + 1, before[j as int]));
                }
            } else {
                proof {
                    lemma_no_swap(v@, gt, j as int);
                }
            }
        }
        proof {
            lemma_pass_done(v@, o, gt, perm, i as int);
        }
    }
    proof {
        assert(is_stable_sort_by(v@, old(v)@, gt, perm));
    }
}

/// Every place of `0..n` is taken in a permutation of `0..n`.
proof fn lemma_permutation_onto(perm: Seq<int>, n: int, a: int)
    requires
        is_permutation(perm, n),
        0 <= a < n,
    ensures
        exists|k: int| 0 <= k < n && perm[k] == a,
{
    let dom = vstd::set_lib::set_int_range(0, n);
    let f = |k: int| perm[k];
    let img = dom.map(f);
    vstd::set_lib::lemma_int_range(0, n);
    assert(vstd::relations::injective_on(f, dom)) by {
        assert forall|x1: int, x2: int|
            dom.contains(x1) && dom.contains(x2) && #[trigger] f(x1) == #[trigger] f(x2) implies x1
                == x2 by {
            if x1 < x2 {
                assert(perm[x1] != perm[x2]);
            } else if x2 < x1 {
                assert(perm[x2] != perm[x1]);
            }
        }
    }
    vstd::set_lib::lemma_map_size(dom, img, f);
    assert(img.subset_of(dom)) by {
        assert forall|x: int| img.contains(x) implies dom.contains(x) by {
            let k = choose|k: int| dom.contains(k) && f(k) == x;
            assert(0 <= perm[k] < n);
        }
    }
    vstd::set_lib::lemma_subset_equality(img, dom);
    assert(img.contains(a));
    let k = choose|k: int| dom.contains(k) && f(k) == a;
    assert(0 <= k < n && perm[k] == a);
}

/// Index `a` of the sorted sequence comes before index `b` in every stable sort.
spec fn sorted_before<T>(o: Seq<T>, gt: spec_fn(T, T) -> bool, a: int, b: int) -> bool {
    a != b && (gt(o[b], o[a]) || (!gt(o[a], o[b]) && a < b))
}

proof fn lemma_sorted_before<T>(r: Seq<T>, o: Seq<T>, gt: spec_fn(T, T) -> bool, perm: Seq<int>, p: int, q: int)
    requires
        is_stable_sort_by(r, o, gt, perm),
        0 <= p < q < r.len(),
    ensures
        sorted_before(o, gt, perm[p], perm[q]),
{
    assert(!gt(r[p], r[q]));
    assert(perm[p] != perm[q]);
    if !gt(r[q], r[p]) {
        assert(perm[p] < perm[q]);
    }
}

proof fn lemma_same_permutation<T>(
    r1: Seq<T>,
    r2: Seq<T>,
    o: Seq<T>,
    gt: spec_fn(T, T) -> bool,
    p1: Seq<int>,
    p2: Seq<int>,
    k: int,
)
    requires
        strict_weak_order(gt),
        is_stable_sort_by(r1, o, gt, p1),
        is_stable_sort_by(r2, o, gt, p2),
        0 <= k < o.len(),
    ensures
        forall|m: int| 0 <= m <= k ==> p1[m] == p2[m],
    decreases k,
{
    let n = o.len() as int;
    if k > 0 {
        lemma_same_permutation(r1, r2, o, gt, p1, p2, k - 1);
    }
    let a = p1[k];
    let b = p2[k];
    if a != b {
        lemma_permutation_onto(p2, n, a);
        let j = choose|j: int| 0 <= j < n && p2[j] == a;
        lemma_permutation_onto(p1, n, b);
        let i = choose|i: int| 0 <= i < n && p1[i] == b;
        if j < k {
            assert(p1[j] == p2[j]);
            assert(p1[j] != p1[k]);
        }
        if i < k {
            assert(p1[i] == p2[i]);
            assert(p2[i] != p2[k]);
        }
        lemma_sorted_before(r2, o, gt, p2, k, j);
        lemma_sorted_before(r1, o, gt, p1, k, i);
        assert(!gt(o[a], o[b]) || !gt(o[b], o[a]));
    }
}

/// A stable sort is unique: two stable sorts of one sequence by one strict weak
/// order are the same sequence.
pub proof fn stable_sort_is_unique<T>(r1: Seq<T>, r2: Seq<T>, o: Seq<T>, gt: spec_fn(T, T) -> bool)
    requires
        strict_weak_order(gt),
        is_stable_sort(r1, o, gt),
        is_stable_sort(r2, o, gt),
    ensures
        r1 == r2,
{
    let p1 = choose|perm: Seq<int>| is_stable_sort_by(r1, o, gt, perm);
    let p2 = choose|perm: Seq<int>| is_stable_sort_by(r2, o, gt, perm);
    if o.len() > 0 {
        lemma_same_permutation(r1, r2, o, gt, p1, p2, o.len() - 1);
        assert forall|k: int| 0 <= k < r1.len() implies r1[k] == r2[k] by {
            assert(p1[k] == p2[k]);
        }
    }
    assert(r1 =~= r2);
}

} // verus!
