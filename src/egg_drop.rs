//! The fewest drops that find the critical floor with a given number of eggs.
use vstd::prelude::*;

verus! {

pub open spec fn max(a: int, b: int) -> int {
    if a >= b {
        a
    } else {
        b
    }
}

pub open spec fn min(a: int, b: int) -> int {
    if a <= b {
        a
    } else {
        b
    }
}

/// The fewest drops that, in the worst case, find the critical floor of a
/// building with `n` floors when `k` eggs are at hand. One egg leaves no
/// choice but to try each floor from the bottom up.
pub open spec fn eggs(k: int, n: int) -> int
    decreases k, n, n + 1,
{
    if n <= 0 {
        0
    } else if k <= 1 {
        n
    } else {
        1 + best(k, n, n)
    }
}

/// The better worst case over a first drop from floors `1..=i`: a drop from
/// floor `j` either breaks the egg (floors below `j` remain, with one egg
/// less) or does not (the `n - j` floors above remain).
pub open spec fn best(k: int, n: int, i: int) -> int
    decreases k, n, i,
{
    if k < 2 || n < 1 || i < 1 || i > n {
        0
    } else if i == 1 {
        max(eggs(k - 1, 0), eggs(k, n - 1))
    } else {
        min(best(k, n, i - 1), max(eggs(k - 1, i - 1), eggs(k, n - i)))
    }
}

/// The worst case of a first drop from floor `j`.
pub open spec fn cost(k: int, n: int, j: int) -> int {
    max(eggs(k - 1, j - 1), eggs(k, n - j))
}

/// `best` is the least cost over the floors `1..=i`.
proof fn lemma_best_is_least(k: int, n: int, i: int)
    requires
        k >= 2,
        1 <= i <= n,
    ensures
        forall|j: int| 1 <= j <= i ==> best(k, n, i) <= #[trigger] cost(k, n, j),
        exists|j: int| 1 <= j <= i && best(k, n, i) == #[trigger] cost(k, n, j),
    decreases i,
{
    if i == 1 {
        assert(best(k, n, i) == cost(k, n, 1));
    } else {
        lemma_best_is_least(k, n, i - 1);
        if best(k, n, i - 1) <= cost(k, n, i) {
            let j = choose|j: int| 1 <= j <= i - 1 && best(k, n, i - 1) == #[trigger] cost(k, n, j);
            assert(best(k, n, i) == cost(k, n, j));
        } else {
            assert(best(k, n, i) == cost(k, n, i));
        }
    }
}

/// With at least one egg, no more drops are needed than floors.
pub proof fn eggs_bounds(k: int, n: int)
    requires
        k >= 1,
        n >= 0,
    ensures
        0 <= eggs(k, n) <= n,
    decreases k, n,
{
    if n >= 1 && k >= 2 {
        lemma_best_is_least(k, n, n);
        eggs_bounds(k - 1, 0);
        eggs_bounds(k, n - 1);
        assert(best(k, n, n) <= cost(k, n, 1));
        let j = choose|j: int| 1 <= j <= n && best(k, n, n) == #[trigger] cost(k, n, j);
        eggs_bounds(k - 1, j - 1);
        eggs_bounds(k, n - j);
    }
}

/// More floors never take fewer drops.
pub proof fn eggs_monotone(k: int, n: int)
    requires
        k >= 1,
        n >= 0,
    ensures
        eggs(k, n) <= eggs(k, n + 1),
    decreases k, n,
{
    eggs_bounds(k, n + 1);
    if n >= 1 && k >= 2 {
        lemma_best_is_least(k, n, n);
        lemma_best_is_least(k, n + 1, n + 1);
        let j = choose|j: int| 1 <= j <= n + 1 && best(k, n + 1, n + 1) == #[trigger] cost(k, n + 1, j);
        if j <= n {
            eggs_monotone(k, n - j);
            assert(cost(k, n, j) <= cost(k, n + 1, j));
            assert(best(k, n, n) <= cost(k, n, j));
        } else {
            eggs_monotone(k - 1, n - 1);
            eggs_bounds(k, 0);
            eggs_bounds(k - 1, n - 1);
            assert(best(k, n, n) <= cost(k, n, n));
            assert(cost(k, n, n) == eggs(k - 1, n - 1));
        }
    }
}

proof fn lemma_eggs_monotone_range(k: int, a: int, b: int)
    requires
        k >= 1,
        0 <= a <= b,
    ensures
        eggs(k, a) <= eggs(k, b),
    decreases b - a,
{
    if a < b {
        lemma_eggs_monotone_range(k, a, b - 1);
        eggs_monotone(k, b - 1);
    }
}

/// Every answer held in `memo` is right: a known entry at row `a` and column
/// `b` is `eggs(a, b)`.
pub open spec fn memo_holds(memo: Seq<Vec<Option<i32>>>) -> bool {
    forall|a: int, b: int|
        0 <= a < memo.len() && 0 <= b < memo[a]@.len() && (#[trigger] memo[a]@[b]) is Some
            ==> memo[a]@[b]->Some_0 == eggs(a, b)
}

/// `memo` has a row for each egg count up to `k`, each with a column for
/// each floor count up to `n`.
pub open spec fn memo_covers(memo: Seq<Vec<Option<i32>>>, k: int, n: int) -> bool {
    &&& k < memo.len()
    &&& forall|a: int| 0 <= a <= k ==> n < (#[trigger] memo[a]@.len())
}

/// The two tables have the same rows and columns.
pub open spec fn same_shape(m1: Seq<Vec<Option<i32>>>, m2: Seq<Vec<Option<i32>>>) -> bool {
    &&& m1.len() == m2.len()
    &&& forall|a: int| 0 <= a < m1.len() ==> (#[trigger] m1[a]@.len()) == m2[a]@.len()
}

proof fn lemma_shape_kept(m1: Seq<Vec<Option<i32>>>, m2: Seq<Vec<Option<i32>>>, m3: Seq<Vec<Option<i32>>>, k: int, n: int)
    requires
        memo_covers(m1, k, n),
        same_shape(m1, m2),
        same_shape(m2, m3),
    ensures
        memo_covers(m3, k, n),
        same_shape(m1, m3),
{
    assert forall|a: int| 0 <= a <= k implies n < (#[trigger] m3[a]@.len()) by {
        assert(m1[a]@.len() == m2[a]@.len());
        assert(m2[a]@.len() == m3[a]@.len());
    }
    assert forall|a: int| 0 <= a < m1.len() implies (#[trigger] m1[a]@.len()) == m3[a]@.len() by {
        assert(m1[a]@.len() == m2[a]@.len());
    }
}

/// The fewest drops that find the critical floor among `n` floors with `k`
/// eggs, reusing and filling the answers kept in `memo`. The first drop is
/// chosen by bisection: the worst case after a break grows with the floor,
/// the worst case after no break shrinks with it.
pub fn dp(k: i32, n: i32, memo: &mut Vec<Vec<Option<i32>>>) -> (r: i32)
    requires
        k >= 1,
        0 <= n < i32::MAX,
        memo_covers(old(memo)@, k as int, n as int),
        memo_holds(old(memo)@),
    ensures
        r == eggs(k as int, n as int),
        memo_holds(final(memo)@),
        same_shape(old(memo)@, final(memo)@),
    decreases k, n,
{
    if k == 1 {
        return n;
    }
    if n == 0 {
        return 0;
    }
    if let Some(v) = memo[k as usize][n as usize] {
        return v;
    }
    let ghost start = memo@;
    let mut res: i32 = i32::MAX;
    let mut low: i32 = 1;
    let mut height: i32 = n;
    while low <= height
        invariant
            k >= 2,
            1 <= n < i32::MAX,
            1 <= low <= height + 1,
            height <= n,
            memo_holds(memo@),
            same_shape(start, memo@),
            memo_covers(start, k as int, n as int),
            memo_covers(memo@, k as int, n as int),
            (low == 1 && height == n) ==> res == i32::MAX,
            (low == 1 && height == n) || exists|j: int| 1 <= j <= n && res == #[trigger] cost(k as int, n as int, j) + 1,
            forall|j: int| 1 <= j < low ==> res <= #[trigger] cost(k as int, n as int, j) + 1,
            forall|j: int| height < j <= n ==> res <= #[trigger] cost(k as int, n as int, j) + 1,
        decreases height - low + 1,
    {
        let mid = low + (height - low) / 2;
        let ghost m0 = memo@;
        proof {
            lemma_shape_kept(start, m0, m0, k as int, n as int);
            lemma_shape_kept(m0, m0, m0, k - 1, mid - 1);
        }
        let broken = dp(k - 1, mid - 1, memo);
        let ghost m1 = memo@;
        proof {
            lemma_shape_kept(m0, m0, m1, k as int, n - mid);
        }
        let not_broken = dp(k, n - mid, memo);
        proof {
            lemma_shape_kept(start, m0, m1, k as int, n as int);
            lemma_shape_kept(start, m1, memo@, k as int, n as int);
            eggs_bounds(k - 1, mid - 1);
            eggs_bounds(k as int, n - mid);
        }
        if broken > not_broken {
            assert forall|j: int| mid <= j <= n implies min(res as int, broken + 1) <= #[trigger] cost(k as int, n as int, j) + 1 by {
                lemma_eggs_monotone_range(k - 1, mid - 1, j - 1);
            }
            height = mid - 1;
            if broken + 1 < res {
                res = broken + 1;
            }
            assert(res == cost(k as int, n as int, mid as int) + 1 || exists|j: int| 1 <= j <= n && res == #[trigger] cost(k as int, n as int, j) + 1);
        } else {
            assert forall|j: int| 1 <= j <= mid implies min(res as int, not_broken + 1) <= #[trigger] cost(k as int, n as int, j) + 1 by {
                lemma_eggs_monotone_range(k as int, n - mid, n - j);
            }
            low = mid + 1;
            if not_broken + 1 < res {
                res = not_broken + 1;
            }
            assert(res == cost(k as int, n as int, mid as int) + 1 || exists|j: int| 1 <= j <= n && res == #[trigger] cost(k as int, n as int, j) + 1);
        }
    }
    proof {
        lemma_best_is_least(k as int, n as int, n as int);
        let j = choose|j: int| 1 <= j <= n && res == #[trigger] cost(k as int, n as int, j) + 1;
        let j2 = choose|j2: int| 1 <= j2 <= n && best(k as int, n as int, n as int) == #[trigger] cost(k as int, n as int, j2);
        assert(res <= cost(k as int, n as int, j2) + 1);
        assert(best(k as int, n as int, n as int) <= cost(k as int, n as int, j));
    }
    memo[k as usize][n as usize] = Some(res);
    res
}

/// The fewest drops that find the critical floor among `n` floors with `k`
/// eggs.
pub fn super_egg_drop(k: i32, n: i32) -> (r: i32)
    requires
        k >= 1,
        0 <= n < i32::MAX,
    ensures
        r == eggs(k as int, n as int),
{
    let mut memo: Vec<Vec<Option<i32>>> = Vec::new();
    let ku = k as usize;
    let nu = n as usize;
    let mut a: usize = 0;
    while a <= ku
        invariant
            ku == k,
            nu == n,
            0 <= n < i32::MAX,
            0 <= a <= ku + 1,
            memo@.len() == a,
            memo_holds(memo@),
            forall|x: int| 0 <= x < a ==> n < (#[trigger] memo@[x]@.len()),
        decreases ku + 1 - a,
    {
        let mut row: Vec<Option<i32>> = Vec::new();
        let mut b: usize = 0;
        while b <= nu
            invariant
                0 <= b <= nu + 1,
                nu == n,
                0 <= n < i32::MAX,
                row@.len() == b,
                forall|y: int| 0 <= y < b ==> (#[trigger] row@[y]) is None,
            decreases nu + 1 - b,
        {
            row.push(None);
            b = b + 1;
        }
        memo.push(row);
        a = a + 1;
    }
    dp(k, n, &mut memo)
}

} // verus!
