//! Merging two sorted runs of integers in place.
use vstd::multiset::Multiset;
use vstd::prelude::*;

verus! {

/// The merge of `a` and `b`: the smaller front element goes first, and on a
/// tie the element of `b` does.
pub open spec fn merged(a: Seq<i32>, b: Seq<i32>) -> Seq<i32>
    decreases a.len() + b.len(),
{
    if a.len() == 0 {
        b
    } else if b.len() == 0 {
        a
    } else if a[0] < b[0] {
        seq![a[0]] + merged(a.drop_first(), b)
    } else {
        seq![b[0]] + merged(a, b.drop_first())
    }
}

proof fn lemma_merged_len(a: Seq<i32>, b: Seq<i32>)
    ensures
        merged(a, b).len() == a.len() + b.len(),
    decreases a.len() + b.len(),
{
    if a.len() != 0 && b.len() != 0 {
        if a[0] < b[0] {
            lemma_merged_len(a.drop_first(), b);
        } else {
            lemma_merged_len(a, b.drop_first());
        }
    }
}

/// Ascending order, equal neighbours allowed.
pub open spec fn sorted(s: Seq<i32>) -> bool {
    forall|i: int, j: int| 0 <= i <= j < s.len() ==> s[i] <= s[j]
}

/// Merges the first `n` elements of `nums2` into the first `m` elements of
/// `nums1`, leaving the result in the first `m + n` places of `nums1`.
/// Elements of `nums1` past `m + n` are left alone, and `nums2` is unchanged.
pub fn merge(nums1: &mut Vec<i32>, m: i32, nums2: &mut Vec<i32>, n: i32)
    requires
        0 <= m,
        0 <= n,
        m + n <= i32::MAX,
        m + n <= old(nums1).len(),
        n <= old(nums2).len(),
    ensures
        final(nums1)@ == merged(old(nums1)@.subrange(0, m as int), old(nums2)@.subrange(0, n as int))
            + old(nums1)@.subrange(m + n, old(nums1)@.len() as int),
        *final(nums2) == *old(nums2),
{
    let ghost a = nums1@.subrange(0, m as int);
    let ghost b = nums2@.subrange(0, n as int);
    let ghost tail = nums1@.subrange(m + n, nums1@.len() as int);
    let mu = m as usize;
    let nu = n as usize;
    let mut temps: Vec<i32> = Vec::new();
    let mut i: usize = 0;
    let mut j: usize = 0;
    assert(a.subrange(0, mu as int) =~= a);
    assert(b.subrange(0, nu as int) =~= b);
    assert(temps@ + merged(a, b) =~= merged(a, b));
    while i < mu && j < nu
        invariant
            i <= mu,
            j <= nu,
            mu == m,
            nu == n,
            mu + nu <= nums1.len(),
            nu <= nums2.len(),
            a == nums1@.subrange(0, m as int),
            a.len() == mu,
            b.len() == nu,
            b == nums2@.subrange(0, n as int),
            temps@ + merged(a.subrange(i as int, mu as int), b.subrange(j as int, nu as int))
                == merged(a, b),
        decreases mu + nu - i - j,
    {
        let ghost ra = a.subrange(i as int, mu as int);
        let ghost rb = b.subrange(j as int, nu as int);
        if nums1[i] < nums2[j] {
            assert(ra.drop_first() =~= a.subrange(i + 1, mu as int));
            assert(temps@.push(nums1[i as int]) + merged(ra.drop_first(), rb)
                =~= temps@ + merged(ra, rb));
            temps.push(nums1[i]);
            i = i + 1;
        } else {
            assert(rb.drop_first() =~= b.subrange(j + 1, nu as int));
            assert(temps@.push(nums2[j as int]) + merged(ra, rb.drop_first())
                =~= temps@ + merged(ra, rb));
            temps.push(nums2[j]);
            j = j + 1;
        }
    }
    while i < mu
        invariant
            i <= mu,
            j <= nu,
            i < mu ==> j == nu,
            mu == m,
            nu == n,
            mu + nu <= nums1.len(),
            a == nums1@.subrange(0, m as int),
            a.len() == mu,
            b.len() == nu,
            b == nums2@.subrange(0, n as int),
            temps@ + merged(a.subrange(i as int, mu as int), b.subrange(j as int, nu as int))
                == merged(a, b),
        decreases mu - i,
    {
        let ghost ra = a.subrange(i as int, mu as int);
        let ghost rb = b.subrange(j as int, nu as int);
        assert(rb.len() == 0);
        assert(merged(ra, rb) == ra);
        assert(ra.drop_first() =~= a.subrange(i + 1, mu as int));
        assert(merged(ra.drop_first(), rb) == ra.drop_first());
        assert(temps@.push(nums1[i as int]) + ra.drop_first() =~= temps@ + ra);
        temps.push(nums1[i]);
        i = i + 1;
    }
    while j < nu
        invariant
            j <= nu,
            i == mu,
            mu == m,
            nu == n,
            nu <= nums2.len(),
            a == nums1@.subrange(0, m as int),
            a.len() == mu,
            b.len() == nu,
            b == nums2@.subrange(0, n as int),
            temps@ + merged(a.subrange(i as int, mu as int), b.subrange(j as int, nu as int))
                == merged(a, b),
        decreases nu - j,
    {
        let ghost ra = a.subrange(i as int, mu as int);
        let ghost rb = b.subrange(j as int, nu as int);
        assert(ra.len() == 0);
        assert(merged(ra, rb) == rb);
        assert(rb.drop_first() =~= b.subrange(j + 1, nu as int));
        assert(merged(ra, rb.drop_first()) == rb.drop_first());
        assert(temps@.push(nums2[j as int]) + rb.drop_first() =~= temps@ + rb);
        temps.push(nums2[j]);
        j = j + 1;
    }
    proof {
        let ra = a.subrange(i as int, mu as int);
        let rb = b.subrange(j as int, nu as int);
        assert(ra.len() == 0 && rb.len() == 0);
        assert(merged(ra, rb) == rb);
    }
    assert(temps@ =~= merged(a, b));
    proof {
        lemma_merged_len(a, b);
    }
    let total = mu + nu;
    let ghost before = nums1@;
    let mut k: usize = 0;
    while k < total
        invariant
            k <= total,
            total == mu + nu,
            temps@ == merged(a, b),
            temps@.len() == total,
            nums1@.len() == before.len(),
            total <= before.len(),
            forall|x: int| 0 <= x < k ==> nums1@[x] == temps@[x],
            forall|x: int| total <= x < before.len() ==> nums1@[x] == before[x],
        decreases total - k,
    {
        nums1.set(k, temps[k]);
        k = k + 1;
    }
    assert(nums1@ =~= merged(a, b) + tail);
}

/// Merging two sorted sequences gives a sorted sequence, whose first element
/// is the first element of one of them.
pub proof fn merged_is_sorted(a: Seq<i32>, b: Seq<i32>)
    requires
        sorted(a),
        sorted(b),
    ensures
        sorted(merged(a, b)),
        merged(a, b).len() > 0 ==> (a.len() > 0 && merged(a, b)[0] == a[0]) || (b.len() > 0
            && merged(a, b)[0] == b[0]),
    decreases a.len() + b.len(),
{
    if a.len() != 0 && b.len() != 0 {
        if a[0] < b[0] {
            let a1 = a.drop_first();
            merged_is_sorted(a1, b);
            lemma_merged_len(a1, b);
            let rest = merged(a1, b);
            assert(rest.len() > 0 ==> a[0] <= rest[0]);
            assert(merged(a, b) =~= seq![a[0]] + rest);
        } else {
            let b1 = b.drop_first();
            merged_is_sorted(a, b1);
            lemma_merged_len(a, b1);
            let rest = merged(a, b1);
            assert(rest.len() > 0 ==> b[0] <= rest[0]);
            assert(merged(a, b) =~= seq![b[0]] + rest);
        }
    }
}

/// Merging loses and adds no element: the merge holds each value as often as
/// the two inputs together.
pub proof fn merged_keeps_elements(a: Seq<i32>, b: Seq<i32>)
    ensures
        merged(a, b).to_multiset() == a.to_multiset().add(b.to_multiset()),
    decreases a.len() + b.len(),
{
    broadcast use vstd::seq_lib::group_to_multiset_ensures;

    if a.len() == 0 {
        assert(a.to_multiset() =~= Multiset::empty());
        assert(merged(a, b).to_multiset() =~= a.to_multiset().add(b.to_multiset()));
    } else if b.len() == 0 {
        assert(b.to_multiset() =~= Multiset::empty());
        assert(merged(a, b).to_multiset() =~= a.to_multiset().add(b.to_multiset()));
    } else if a[0] < b[0] {
        let a1 = a.drop_first();
        merged_keeps_elements(a1, b);
        vstd::seq_lib::lemma_multiset_commutative(seq![a[0]], merged(a1, b));
        vstd::seq_lib::lemma_multiset_commutative(seq![a[0]], a1);
        assert(seq![a[0]] + a1 =~= a);
        assert(merged(a, b).to_multiset() =~= a.to_multiset().add(b.to_multiset()));
    } else {
        let b1 = b.drop_first();
        merged_keeps_elements(a, b1);
        vstd::seq_lib::lemma_multiset_commutative(seq![b[0]], merged(a, b1));
        vstd::seq_lib::lemma_multiset_commutative(seq![b[0]], b1);
        assert(seq![b[0]] + b1 =~= b);
        assert(merged(a, b).to_multiset() =~= a.to_multiset().add(b.to_multiset()));
    }
}

} // verus!
