//! Candidate selection and low-weight elimination.
//!
//! The sampler examines the 3x3 cell neighborhood of a query point,
//! keeps the `k` candidates whose jitter points lie nearest, and, after
//! the distances have been turned into normalized weights, drops the
//! entries whose weight falls at or below a configured threshold.
//!
//! Both steps are decisions over a totally ordered key, not over the
//! floating-point values themselves, so they are implemented here over
//! `u64` keys.  The caller maps each non-negative floating-point distance
//! or weight to its IEEE-754 bit pattern; on non-negative values that
//! mapping preserves order, so the selections below decide exactly as a
//! comparison of the underlying numbers would.

use vstd::prelude::*;

verus! {

/// Strict total order on candidate slots: smaller key first, ties broken
/// by the fixed enumeration order of the neighborhood (lower slot wins).
pub open spec fn key_lt(d: Seq<u64>, i: int, j: int) -> bool {
    d[i] < d[j] || (d[i] == d[j] && i < j)
}

/// How many entries of `w` lie strictly above the threshold `t`.
pub open spec fn count_above(w: Seq<u64>, t: u64) -> nat
    decreases w.len(),
{
    if w.len() == 0 {
        0
    } else {
        count_above(w.drop_last(), t) + (if w.last() > t {
            1nat
        } else {
            0nat
        })
    }
}

/// Length of the list that survives elimination: the entries above the
/// threshold, or a single entry (the heaviest) when none lies above it.
pub open spec fn kept_len(w: Seq<u64>, t: u64) -> nat {
    if count_above(w, t) == 0 {
        1nat
    } else {
        count_above(w, t)
    }
}

spec fn count_false(s: Seq<bool>) -> nat
    decreases s.len(),
{
    if s.len() == 0 {
        0
    } else {
        count_false(s.drop_last()) + (if s.last() {
            0nat
        } else {
            1nat
        })
    }
}

proof fn lemma_count_false_all_false(s: Seq<bool>)
    requires
        forall|j: int| 0 <= j < s.len() ==> !s[j],
    ensures
        count_false(s) == s.len(),
    decreases s.len(),
{
    if s.len() > 0 {
        lemma_count_false_all_false(s.drop_last());
    }
}

proof fn lemma_count_false_all_true(s: Seq<bool>)
    requires
        forall|j: int| 0 <= j < s.len() ==> s[j],
    ensures
        count_false(s) == 0,
    decreases s.len(),
{
    if s.len() > 0 {
        lemma_count_false_all_true(s.drop_last());
    }
}

proof fn lemma_count_false_update(s: Seq<bool>, i: int)
    requires
        0 <= i < s.len(),
        !s[i],
    ensures
        count_false(s.update(i, true)) == count_false(s) - 1,
    decreases s.len(),
{
    let u = s.update(i, true);
    if i == s.len() - 1 {
        assert(u.drop_last() =~= s.drop_last());
    } else {
        assert(u.drop_last() =~= s.drop_last().update(i, true));
        lemma_count_false_update(s.drop_last(), i);
    }
}

/// What it means for `r` to be the `k`-nearest list of the distance keys
/// `d`: `r` holds `min(k, n)` slots, sorted under `key_lt`, and every
/// slot left out compares greater than every slot listed.  Exactly one
/// sequence satisfies this (see `lemma_k_nearest_unique`).
pub open spec fn is_k_nearest(d: Seq<u64>, k: int, r: Seq<usize>) -> bool {
    &&& r.len() == if k <= d.len() {
        k
    } else {
        d.len() as int
    }
    &&& forall|a: int| 0 <= a < r.len() ==> (r[a] as int) < d.len()
    &&& forall|a: int, b: int| 0 <= a < b < r.len() ==> key_lt(d, r[a] as int, r[b] as int)
    &&& forall|j: usize, a: int|
        j < d.len() && !r.contains(j) && 0 <= a < r.len() ==> key_lt(d, r[a] as int, j as int)
}

/// Indices of the `k` nearest candidates, in ascending order of
/// (distance key, slot): the blend list before weighting.
///
/// The result is exactly the first `min(k, n)` slots of the permutation
/// of `0..n` sorted by `key_lt`.
pub fn select_k_nearest(dists: &Vec<u64>, k: usize) -> (r: Vec<usize>)
    requires
        dists@.len() >= 1,
        k >= 1,
    ensures
        is_k_nearest(dists@, k as int, r@),
{
    let n = dists.len();
    let k_eff = if k <= n {
        k
    } else {
        n
    };
    let mut used: Vec<bool> = Vec::new();
    while used.len() < n
        invariant
            used@.len() <= n,
            forall|j: int| 0 <= j < used@.len() ==> !used@[j],
        decreases n - used@.len(),
    {
        used.push(false);
    }
    proof {
        lemma_count_false_all_false(used@);
    }
    let mut r: Vec<usize> = Vec::new();
    while r.len() < k_eff
        invariant
            k_eff <= n,
            n == dists@.len(),
            used@.len() == n,
            r@.len() <= k_eff,
            count_false(used@) == n - r@.len(),
            forall|j: usize| j < n ==> (used@[j as int] <==> r@.contains(j)),
            forall|a: int| 0 <= a < r@.len() ==> (r@[a] as int) < n,
            forall|a: int, b: int|
                0 <= a < b < r@.len() ==> key_lt(dists@, r@[a] as int, r@[b] as int),
            forall|j: usize, a: int|
                j < n && !used@[j as int] && 0 <= a < r@.len() ==> key_lt(
                    dists@,
                    r@[a] as int,
                    j as int,
                ),
        decreases k_eff - r@.len(),
    {
        let mut best: usize = n;
        let mut j: usize = 0;
        while j < n
            invariant
                n == dists@.len(),
                used@.len() == n,
                j <= n,
                best == n || best < j,
                best == n ==> forall|j2: int| 0 <= j2 < j ==> used@[j2],
                best < n ==> !used@[best as int],
                best < n ==> forall|j2: int|
                    0 <= j2 < j && !used@[j2] ==> dists@[best as int] <= dists@[j2],
                best < n ==> forall|j2: int|
                    0 <= j2 < best ==> used@[j2] || dists@[j2] > dists@[best as int],
            decreases n - j,
        {
            if !used[j] && (best == n || dists[j] < dists[best]) {
                best = j;
            }
            j += 1;
        }
        if best == n {
            proof {
                lemma_count_false_all_true(used@);
            }
            assert(r@.len() == n);
            assert(false);
        }
        proof {
            lemma_count_false_update(used@, best as int);
        }
        let ghost old_used = used@;
        let ghost old_r = r@;
        used.set(best, true);
        r.push(best);
        proof {
            assert forall|j2: usize| j2 < n implies (used@[j2 as int] <==> r@.contains(j2)) by {
                if j2 == best {
                    assert(r@[r@.len() - 1] == j2);
                } else {
                    assert(used@[j2 as int] == old_used[j2 as int]);
                    if old_r.contains(j2) {
                        let a = choose|a: int| 0 <= a < old_r.len() && old_r[a] == j2;
                        assert(r@[a] == j2);
                    }
                    if r@.contains(j2) {
                        let a = choose|a: int| 0 <= a < r@.len() && r@[a] == j2;
                        assert(a < r@.len() - 1);
                        assert(old_r[a] == j2);
                    }
                }
            }
            assert forall|j2: usize| j2 < n && !old_used[j2 as int] && j2 != best implies key_lt(
                dists@,
                best as int,
                j2 as int,
            ) by {
                assert(dists@[best as int] <= dists@[j2 as int]);
                if dists@[best as int] == dists@[j2 as int] && j2 < best {
                    assert(old_used[j2 as int] || dists@[j2 as int] > dists@[best as int]);
                }
            }
            assert forall|a: int, b: int| 0 <= a < b < r@.len() implies key_lt(
                dists@,
                r@[a] as int,
                r@[b] as int,
            ) by {
                if b == r@.len() - 1 {
                    assert(r@[a] == old_r[a]);
                    assert(!old_used[best as int]);
                    assert(key_lt(dists@, old_r[a] as int, best as int));
                }
            }
        }
    }
    r
}

/// What it means for `r` to be the surviving list of the weight keys `w`
/// at threshold `t`: the indices of all entries strictly above `t`, in
/// ascending index order, or, when none lies above `t`, the single index
/// of the heaviest entry (the first, on ties).  Exactly one sequence
/// satisfies this (see `lemma_survivors_unique`).
pub open spec fn is_survivor_list(w: Seq<u64>, t: u64, r: Seq<usize>) -> bool {
    &&& r.len() == kept_len(w, t)
    &&& forall|a: int| 0 <= a < r.len() ==> (r[a] as int) < w.len()
    &&& forall|a: int, b: int| 0 <= a < b < r.len() ==> r[a] < r[b]
    &&& count_above(w, t) > 0 ==> forall|a: int| 0 <= a < r.len() ==> w[r[a] as int] > t
    &&& count_above(w, t) > 0 ==> forall|j: usize| j < w.len() && w[j as int] > t ==> r.contains(j)
    &&& count_above(w, t) == 0 ==> {
        &&& r.len() == 1
        &&& forall|j: int| 0 <= j < w.len() ==> #[trigger] w[j] <= w[r[0] as int]
        &&& forall|j: int| 0 <= j < (r[0] as int) ==> #[trigger] w[j] < w[r[0] as int]
    }
}

/// The surviving entries of the elimination step, as indices into the
/// normalized weight list, in ascending index order.
///
/// Every index whose weight key lies strictly above the threshold key
/// survives.  When no entry lies above the threshold, elimination would
/// empty the result, so the single heaviest entry (the first, on ties)
/// is kept instead: the result is never empty.
pub fn survivors(weights: &Vec<u64>, threshold: u64) -> (r: Vec<usize>)
    requires
        weights@.len() >= 1,
    ensures
        is_survivor_list(weights@, threshold, r@),
{
    let n = weights.len();
    let mut r: Vec<usize> = Vec::new();
    let mut best: usize = 0;
    let mut i: usize = 0;
    while i < n
        invariant
            n == weights@.len(),
            n >= 1,
            i <= n,
            best < n,
            i == 0 ==> best == 0,
            i > 0 ==> best < i,
            forall|j: int| 0 <= j < i ==> weights@[j] <= weights@[best as int],
            forall|j: int| 0 <= j < best ==> weights@[j] < weights@[best as int],
            r@.len() == count_above(weights@.take(i as int), threshold),
            forall|a: int| 0 <= a < r@.len() ==> (r@[a] as int) < i,
            forall|a: int, b: int| 0 <= a < b < r@.len() ==> r@[a] < r@[b],
            forall|a: int| 0 <= a < r@.len() ==> weights@[r@[a] as int] > threshold,
            forall|j: usize| j < i && weights@[j as int] > threshold ==> r@.contains(j),
        decreases n - i,
    {
        proof {
            assert(weights@.take(i + 1).drop_last() =~= weights@.take(i as int));
        }
        if weights[i] > threshold {
            let ghost old_r = r@;
            r.push(i);
            proof {
                assert forall|j: usize|
                    j < i + 1 && weights@[j as int] > threshold implies r@.contains(j) by {
                    if j < i {
                        assert(old_r.contains(j));
                        let a = choose|a: int| 0 <= a < old_r.len() && old_r[a] == j;
                        assert(r@[a] == j);
                    } else {
                        assert(r@[r@.len() - 1] == j);
                    }
                }
            }
        }
        if weights[i] > weights[best] {
            best = i;
        }
        i += 1;
    }
    proof {
        assert(weights@.take(n as int) =~= weights@);
    }
    if r.len() == 0 {
        r.push(best);
    }
    r
}

/// No more entries lie above the threshold than the list holds.
pub proof fn lemma_count_above_le_len(w: Seq<u64>, t: u64)
    ensures
        count_above(w, t) <= w.len(),
    decreases w.len(),
{
    if w.len() > 0 {
        lemma_count_above_le_len(w.drop_last(), t);
    }
}

proof fn lemma_count_above_monotonic(w: Seq<u64>, t1: u64, t2: u64)
    requires
        t1 <= t2,
    ensures
        count_above(w, t2) <= count_above(w, t1),
    decreases w.len(),
{
    if w.len() > 0 {
        lemma_count_above_monotonic(w.drop_last(), t1, t2);
    }
}

/// Monotonic elimination: raising the kill threshold never lengthens the
/// surviving list.  For one weight list `w` and thresholds `t1 <= t2`,
/// the list kept at `t2` is no longer than the list kept at `t1`.
pub proof fn lemma_kill_threshold_monotonic(w: Seq<u64>, t1: u64, t2: u64)
    requires
        t1 <= t2,
    ensures
        kept_len(w, t2) <= kept_len(w, t1),
{
    lemma_count_above_monotonic(w, t1, t2);
}

/// The surviving list is never empty and never longer than its input:
/// after elimination the result still holds between 1 and `min(k, 9)`
/// entries, since the weight list itself holds `min(k, 9)` entries.
pub proof fn lemma_result_len_bounds(w: Seq<u64>, t: u64)
    requires
        w.len() >= 1,
    ensures
        1 <= kept_len(w, t) <= w.len(),
{
    lemma_count_above_le_len(w, t);
}

proof fn lemma_k_nearest_min_at(d: Seq<u64>, k: int, r: Seq<usize>, i: int, j: usize)
    requires
        is_k_nearest(d, k, r),
        0 <= i < r.len(),
        j < d.len(),
        !r.take(i).contains(j),
        j != r[i],
    ensures
        key_lt(d, r[i] as int, j as int),
{
    if r.contains(j) {
        let a = choose|a: int| 0 <= a < r.len() && r[a] == j;
        if a < i {
            assert(r.take(i)[a] == j);
        }
        assert(i < a);
        assert(key_lt(d, r[i] as int, r[a] as int));
    }
}

proof fn lemma_k_nearest_unique_from(d: Seq<u64>, k: int, r1: Seq<usize>, r2: Seq<usize>, i: int)
    requires
        is_k_nearest(d, k, r1),
        is_k_nearest(d, k, r2),
        0 <= i <= r1.len(),
        r1.take(i) =~= r2.take(i),
    ensures
        r1 =~= r2,
    decreases r1.len() - i,
{
    if i < r1.len() {
        assert(!r1.take(i).contains(r1[i])) by {
            if r1.take(i).contains(r1[i]) {
                let a = choose|a: int| 0 <= a < i && r1.take(i)[a] == r1[i];
                assert(key_lt(d, r1[a] as int, r1[i] as int));
            }
        }
        assert(!r2.take(i).contains(r2[i])) by {
            if r2.take(i).contains(r2[i]) {
                let a = choose|a: int| 0 <= a < i && r2.take(i)[a] == r2[i];
                assert(key_lt(d, r2[a] as int, r2[i] as int));
            }
        }
        if r1[i] != r2[i] {
            lemma_k_nearest_min_at(d, k, r1, i, r2[i]);
            lemma_k_nearest_min_at(d, k, r2, i, r1[i]);
            assert(false);
        }
        assert(r1.take(i + 1) =~= r2.take(i + 1));
        lemma_k_nearest_unique_from(d, k, r1, r2, i + 1);
    } else {
        assert(r1 =~= r1.take(i));
        assert(r2 =~= r2.take(i));
    }
}

/// The k-nearest contract pins its result: any two lists that satisfy it
/// for the same distance keys and the same `k` are equal.  Selection is
/// therefore deterministic — two queries with identical configuration
/// and coordinates blend exactly the same cells in the same order.
pub proof fn lemma_k_nearest_unique(d: Seq<u64>, k: int, r1: Seq<usize>, r2: Seq<usize>)
    requires
        is_k_nearest(d, k, r1),
        is_k_nearest(d, k, r2),
    ensures
        r1 == r2,
{
    lemma_k_nearest_unique_from(d, k, r1, r2, 0);
}

proof fn lemma_survivors_unique_from(w: Seq<u64>, t: u64, r1: Seq<usize>, r2: Seq<usize>, i: int)
    requires
        is_survivor_list(w, t, r1),
        is_survivor_list(w, t, r2),
        count_above(w, t) > 0,
        0 <= i <= r1.len(),
        r1.take(i) =~= r2.take(i),
    ensures
        r1 =~= r2,
    decreases r1.len() - i,
{
    if i < r1.len() {
        let x = r1[i];
        let y = r2[i];
        assert(!r1.take(i).contains(x)) by {
            if r1.take(i).contains(x) {
                let a = choose|a: int| 0 <= a < i && r1.take(i)[a] == x;
                assert(r1[a] < r1[i]);
            }
        }
        assert(!r2.take(i).contains(y)) by {
            if r2.take(i).contains(y) {
                let a = choose|a: int| 0 <= a < i && r2.take(i)[a] == y;
                assert(r2[a] < r2[i]);
            }
        }
        assert(y <= x) by {
            assert(w[x as int] > t);
            assert(r2.contains(x));
            let a = choose|a: int| 0 <= a < r2.len() && r2[a] == x;
            if a < i {
                assert(r2.take(i)[a] == x);
                assert(r1.take(i).contains(x));
            }
            if a > i {
                assert(r2[i] < r2[a]);
            }
        }
        assert(x <= y) by {
            assert(w[y as int] > t);
            assert(r1.contains(y));
            let a = choose|a: int| 0 <= a < r1.len() && r1[a] == y;
            if a < i {
                assert(r1.take(i)[a] == y);
                assert(r2.take(i).contains(y));
            }
            if a > i {
                assert(r1[i] < r1[a]);
            }
        }
        assert(r1.take(i + 1) =~= r2.take(i + 1));
        lemma_survivors_unique_from(w, t, r1, r2, i + 1);
    } else {
        assert(r1 =~= r1.take(i));
        assert(r2 =~= r2.take(i));
    }
}

/// The elimination contract pins its result likewise: any two surviving
/// lists for the same weight keys and threshold are equal, so the
/// elimination step, too, is deterministic.
pub proof fn lemma_survivors_unique(w: Seq<u64>, t: u64, r1: Seq<usize>, r2: Seq<usize>)
    requires
        is_survivor_list(w, t, r1),
        is_survivor_list(w, t, r2),
    ensures
        r1 == r2,
{
    if count_above(w, t) == 0 {
        let x = r1[0];
        let y = r2[0];
        if x < y {
            assert(w[x as int] < w[y as int]);
            assert(w[y as int] <= w[x as int]);
        }
        if y < x {
            assert(w[y as int] < w[x as int]);
            assert(w[x as int] <= w[y as int]);
        }
        assert(r1 =~= r2);
    } else {
        lemma_survivors_unique_from(w, t, r1, r2, 0);
    }
}

} // verus!
