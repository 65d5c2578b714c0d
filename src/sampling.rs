//! Deterministic sampling: which rows to keep, by four strategies.
//!
//! Every strategy is a function of the row count, the target size and the seed alone
//! (stratified sampling also of the stratum column), so repeated calls agree.

use vstd::prelude::*;
use crate::aggregate::distinct_cells;
use crate::aggregate::distinct_values;
use crate::model::{Cell, CellView, cells_view};

verus! {

/// Modulus of the reservoir scores.
pub const RESERVOIR_PRIME: u64 = 1_000_000_007;

/// Multiplier of the hash-modulo strategy.
pub const HASH_MULTIPLIER: u64 = 2_654_435_761;

/// The reservoir score of row `i`.
pub open spec fn score(i: int, seed: int) -> int {
    (i * seed) % (RESERVOIR_PRIME as int)
}

/// Row `j` comes before row `i` in score order (ties by position).
pub open spec fn precedes(j: int, i: int, seed: int) -> bool {
    score(j, seed) < score(i, seed) || (score(j, seed) == score(i, seed) && j < i)
}

/// How many of the rows `0..m` come before row `i`.
pub open spec fn rank_below(i: int, m: int, seed: int) -> nat
    decreases m,
{
    if m <= 0 {
        0
    } else {
        rank_below(i, m - 1, seed) + if precedes(m - 1, i, seed) { 1nat } else { 0nat }
    }
}

/// The rows `0..m` whose rank among `n` rows is under `target`, ascending.
pub open spec fn lowest_ranked(n: int, m: int, target: int, seed: int) -> Seq<int>
    decreases m,
{
    if m <= 0 {
        Seq::empty()
    } else {
        let before = lowest_ranked(n, m - 1, target, seed);
        if rank_below(m - 1, n, seed) < target {
            before.push(m - 1)
        } else {
            before
        }
    }
}

/// All rows `0..n`.
pub open spec fn all_rows(n: int) -> Seq<int> {
    Seq::new(n as nat, |i: int| i)
}

/// Reservoir (rank-hash) sampling: every row when `n <= target`; otherwise the `target`
/// rows of lowest score `(i * seed) mod 1_000_000_007`, ties by position, in row order.
pub open spec fn reservoir_pick(n: int, target: int, seed: int) -> Seq<int> {
    if n <= target {
        all_rows(n)
    } else {
        lowest_ranked(n, n, target, seed)
    }
}

/// Rows `start, start + k, start + 2k, ...` below `n`, at most `target` of them.
pub open spec fn every_kth(n: int, k: int, start: int, target: int) -> Seq<int> {
    let avail = if start >= n { 0 } else { (n - 1 - start) / k + 1 };
    let count = if avail < target { avail } else { target };
    Seq::new(count as nat, |j: int| start + j * k)
}

/// `a / b` rounded up.
pub open spec fn ceil_div(a: int, b: int) -> int {
    (a + b - 1) / b
}

/// Systematic sampling of the first `n` of `total` rows: interval `k = ceil(total / target)`,
/// offset `seed mod k`.
pub open spec fn systematic_pick(n: int, total: int, target: int, seed: int) -> Seq<int> {
    if total <= target {
        all_rows(n)
    } else if target <= 0 {
        Seq::empty()
    } else {
        let k = ceil_div(total, target);
        every_kth(n, k, seed % k, target)
    }
}

/// Rows of `0..m` whose hash `(i * 2654435761 + seed)` is divisible by `modulo`.
pub open spec fn hash_hits(m: int, modulo: int, seed: int) -> Seq<int>
    decreases m,
{
    if m <= 0 {
        Seq::empty()
    } else {
        let before = hash_hits(m - 1, modulo, seed);
        if ((m - 1) * HASH_MULTIPLIER + seed) % modulo == 0 {
            before.push(m - 1)
        } else {
            before
        }
    }
}

/// Hash-modulo sampling: the first `target` rows whose hash is divisible by
/// `ceil(n / target)`; the count may fall short of the target.
pub open spec fn hash_pick(n: int, target: int, seed: int) -> Seq<int> {
    if n <= target {
        all_rows(n)
    } else if target <= 0 {
        Seq::empty()
    } else {
        let h = hash_hits(n, ceil_div(n, target), seed);
        if h.len() <= target { h } else { h.take(target) }
    }
}

pub open spec fn as_positions(v: Seq<usize>) -> Seq<int> {
    v.map_values(|i: usize| i as int)
}

/// `0, 1, ..., n - 1`.
pub fn every_row(n: usize) -> (r: Vec<usize>)
    ensures
        as_positions(r@) == all_rows(n as int),
{
    let mut r: Vec<usize> = Vec::new();
    let mut i: usize = 0;
    while i < n
        invariant
            i <= n,
            r@.len() == i,
            forall|k: int| 0 <= k < i ==> #[trigger] r@[k] == k,
        decreases n - i,
    {
        r.push(i);
        i = i + 1;
    }
    assert(as_positions(r@) =~= all_rows(n as int));
    r
}

fn score_exec(i: usize, seed: u64) -> (r: u64)
    ensures
        r == score(i as int, seed as int),
        r < RESERVOIR_PRIME,
{
    assert((i as int) * (seed as int) <= 0xffff_ffff_ffff_ffff * 0xffff_ffff_ffff_ffff) by (nonlinear_arith)
        requires
            0 <= i <= 0xffff_ffff_ffff_ffff,
            0 <= seed <= 0xffff_ffff_ffff_ffff,
    ;
    let p = (i as u128) * (seed as u128);
    (p % (RESERVOIR_PRIME as u128)) as u64
}

/// The sort key of row `i` of `n`: its score, then its position.
pub open spec fn rank_key(i: int, n: int, seed: int) -> int {
    score(i, seed) * n + i
}

/// How many of the rows `0..m` have a key below `t`.
pub open spec fn count_below(t: int, m: int, n: int, seed: int) -> nat
    decreases m,
{
    if m <= 0 {
        0
    } else {
        count_below(t, m - 1, n, seed) + if rank_key(m - 1, n, seed) < t { 1nat } else { 0nat }
    }
}

/// How many of the rows `0..m` have key `t`.
pub open spec fn count_equal(t: int, m: int, n: int, seed: int) -> nat
    decreases m,
{
    if m <= 0 {
        0
    } else {
        count_equal(t, m - 1, n, seed) + if rank_key(m - 1, n, seed) == t { 1nat } else { 0nat }
    }
}

proof fn lemma_key_order(i: int, j: int, n: int, seed: int)
    requires
        0 <= i < n,
        0 <= j < n,
        seed >= 0,
    ensures
        precedes(j, i, seed) <==> rank_key(j, n, seed) < rank_key(i, n, seed),
        rank_key(j, n, seed) == rank_key(i, n, seed) ==> i == j,
        0 <= rank_key(i, n, seed) < (RESERVOIR_PRIME as int) * n,
{
    let si = score(i, seed);
    let sj = score(j, seed);
    let p = RESERVOIR_PRIME as int;
    assert(0 <= si < p && 0 <= sj < p) by {
        vstd::arithmetic::div_mod::lemma_mod_bound(i * seed, p);
        vstd::arithmetic::div_mod::lemma_mod_bound(j * seed, p);
        assert(i * seed >= 0) by (nonlinear_arith)
            requires
                i >= 0,
                seed >= 0,
        ;
        assert(j * seed >= 0) by (nonlinear_arith)
            requires
                j >= 0,
                seed >= 0,
        ;
    }
    assert(sj < si ==> sj * n + j < si * n + i) by (nonlinear_arith)
        requires
            0 <= i < n,
            0 <= j < n,
    ;
    assert(si < sj ==> si * n + i < sj * n + j) by (nonlinear_arith)
        requires
            0 <= i < n,
            0 <= j < n,
    ;
    assert(si * n + i < p * n) by (nonlinear_arith)
        requires
            0 <= si < p,
            0 <= i < n,
    ;
    assert(si * n + i >= 0) by (nonlinear_arith)
        requires
            0 <= si,
            0 <= i,
            n > 0,
    ;
}

proof fn lemma_count_mono(t1: int, t2: int, m: int, n: int, seed: int)
    requires
        t1 <= t2,
    ensures
        count_below(t1, m, n, seed) <= count_below(t2, m, n, seed),
    decreases m,
{
    if m > 0 {
        lemma_count_mono(t1, t2, m - 1, n, seed);
    }
}

proof fn lemma_count_step(t: int, m: int, n: int, seed: int)
    ensures
        count_below(t + 1, m, n, seed) == count_below(t, m, n, seed) + count_equal(t, m, n, seed),
    decreases m,
{
    if m > 0 {
        lemma_count_step(t, m - 1, n, seed);
    }
}

proof fn lemma_equal_none(t: int, m: int, n: int, seed: int)
    requires
        forall|j: int| 0 <= j < m ==> rank_key(j, n, seed) != t,
    ensures
        count_equal(t, m, n, seed) == 0,
    decreases m,
{
    if m > 0 {
        lemma_equal_none(t, m - 1, n, seed);
    }
}

proof fn lemma_equal_at_most_one(t: int, m: int, n: int, seed: int)
    requires
        m <= n,
        seed >= 0,
    ensures
        count_equal(t, m, n, seed) <= 1,
    decreases m,
{
    if m > 0 {
        lemma_equal_at_most_one(t, m - 1, n, seed);
        if rank_key(m - 1, n, seed) == t {
            assert forall|j: int| 0 <= j < m - 1 implies rank_key(j, n, seed) != t by {
                lemma_key_order(m - 1, j, n, seed);
            }
            lemma_equal_none(t, m - 1, n, seed);
        }
    }
}

proof fn lemma_equal_own(i: int, m: int, n: int, seed: int)
    requires
        0 <= i < m,
    ensures
        count_equal(rank_key(i, n, seed), m, n, seed) >= 1,
    decreases m,
{
    if m - 1 > i {
        lemma_equal_own(i, m - 1, n, seed);
    }
}

proof fn lemma_rank_is_count(i: int, m: int, n: int, seed: int)
    requires
        0 <= i < n,
        m <= n,
        seed >= 0,
    ensures
        rank_below(i, m, seed) == count_below(rank_key(i, n, seed), m, n, seed),
    decreases m,
{
    if m > 0 {
        lemma_rank_is_count(i, m - 1, n, seed);
        lemma_key_order(i, m - 1, n, seed);
    }
}

fn key_exec(i: usize, n: usize, seed: u64) -> (r: u128)
    requires
        i < n,
    ensures
        r == rank_key(i as int, n as int, seed as int),
{
    let s = score_exec(i, seed);
    proof {
        lemma_key_order(i as int, i as int, n as int, seed as int);
        assert((s as int) * (n as int) + i < (RESERVOIR_PRIME as int) * 0x1_0000_0000_0000_0000) by (nonlinear_arith)
            requires
                s < RESERVOIR_PRIME,
                i < n,
                n <= 0xffff_ffff_ffff_ffff,
        ;
    }
    (s as u128) * (n as u128) + (i as u128)
}

fn count_keys_below(keys: &Vec<u128>, t: u128, Ghost(n): Ghost<int>, Ghost(seed): Ghost<int>) -> (c: usize)
    requires
        keys@.len() == n,
        forall|k: int| 0 <= k < n ==> #[trigger] keys@[k] == rank_key(k, n, seed),
    ensures
        c == count_below(t as int, n, n, seed),
{
    let mut c: usize = 0;
    let mut j: usize = 0;
    while j < keys.len()
        invariant
            j <= keys@.len(),
            keys@.len() == n,
            c <= j,
            forall|k: int| 0 <= k < n ==> #[trigger] keys@[k] == rank_key(k, n, seed),
            c == count_below(t as int, j as int, n, seed),
        decreases keys@.len() - j,
    {
        if keys[j] < t {
            c = c + 1;
        }
        j = j + 1;
    }
    c
}

/// The reservoir rows of `n`: see `reservoir_pick`.
///
/// The rows of rank under the target are those whose key lies below a threshold, found by
/// a binary search over key values: the largest threshold with at most `target` keys below.
pub fn reservoir_rows(n: usize, target: usize, seed: u64) -> (r: Vec<usize>)
    ensures
        as_positions(r@) == reservoir_pick(n as int, target as int, seed as int),
{
    if n <= target {
        return every_row(n);
    }
    let ghost nn = n as int;
    let ghost sd = seed as int;
    let mut keys: Vec<u128> = Vec::new();
    let mut i: usize = 0;
    while i < n
        invariant
            i <= n,
            keys@.len() == i,
            forall|k: int| 0 <= k < i ==> #[trigger] keys@[k] == rank_key(k, nn, sd),
            nn == n,
            sd == seed,
        decreases n - i,
    {
        keys.push(key_exec(i, n, seed));
        i = i + 1;
    }
    // Every key is below `hi`, so all `n` rows count there; none count below 0.
    let mut lo: u128 = 0;
    let mut hi: u128 = (RESERVOIR_PRIME as u128) * (n as u128);
    proof {
        assert forall|k: int| 0 <= k < nn implies #[trigger] rank_key(k, nn, sd) < hi by {
            lemma_key_order(k, k, nn, sd);
        }
        lemma_count_all(hi as int, nn, nn, sd);
        lemma_count_zero(nn, nn, sd);
    }
    while hi - lo > 1
        invariant
            lo < hi,
            hi <= (RESERVOIR_PRIME as u128) * (n as u128),
            keys@.len() == n,
            nn == n,
            sd == seed,
            n > target,
            forall|k: int| 0 <= k < nn ==> #[trigger] keys@[k] == rank_key(k, nn, sd),
            count_below(lo as int, nn, nn, sd) <= target,
            count_below(hi as int, nn, nn, sd) > target,
        decreases hi - lo,
    {
        let mid = lo + (hi - lo) / 2;
        let c = count_keys_below(&keys, mid, Ghost(nn), Ghost(sd));
        if c <= target {
            lo = mid;
        } else {
            hi = mid;
        }
    }
    proof {
        lemma_count_step(lo as int, nn, nn, sd);
        lemma_equal_at_most_one(lo as int, nn, nn, sd);
    }
    let ghost th = lo as int;
    assert(count_below(th, nn, nn, sd) == target);
    let mut r: Vec<usize> = Vec::new();
    let mut i: usize = 0;
    while i < n
        invariant
            i <= n,
            keys@.len() == n,
            nn == n,
            sd == seed,
            th == lo,
            n > target,
            forall|k: int| 0 <= k < nn ==> #[trigger] keys@[k] == rank_key(k, nn, sd),
            count_below(th, nn, nn, sd) == target,
            as_positions(r@) == lowest_ranked(nn, i as int, target as int, sd),
        decreases n - i,
    {
        proof {
            let ki = rank_key(i as int, nn, sd);
            lemma_rank_is_count(i as int, nn, nn, sd);
            if ki < th {
                lemma_count_mono(ki + 1, th, nn, nn, sd);
                lemma_count_step(ki, nn, nn, sd);
                lemma_equal_own(i as int, nn, nn, sd);
            } else {
                lemma_count_mono(th, ki, nn, nn, sd);
            }
        }
        if keys[i] < lo {
            let ghost before = r@;
            r.push(i);
            assert(as_positions(r@) =~= as_positions(before).push(i as int));
        }
        i = i + 1;
    }
    r
}

proof fn lemma_count_all(t: int, m: int, n: int, seed: int)
    requires
        0 <= m <= n,
        forall|k: int| 0 <= k < n ==> #[trigger] rank_key(k, n, seed) < t,
    ensures
        count_below(t, m, n, seed) == m,
    decreases m,
{
    if m > 0 {
        lemma_count_all(t, m - 1, n, seed);
    }
}

proof fn lemma_count_zero(m: int, n: int, seed: int)
    requires
        0 <= m <= n,
        seed >= 0,
    ensures
        count_below(0, m, n, seed) == 0,
    decreases m,
{
    if m > 0 {
        lemma_count_zero(m - 1, n, seed);
        lemma_key_order(m - 1, m - 1, n, seed);
    }
}

/// The systematic rows among the first `n` of `total`: see `systematic_pick`.
pub fn systematic_rows(n: usize, total: usize, target: usize, seed: u64) -> (r: Vec<usize>)
    ensures
        as_positions(r@) == systematic_pick(n as int, total as int, target as int, seed as int),
{
    if total <= target {
        return every_row(n);
    }
    if target == 0 {
        let r: Vec<usize> = Vec::new();
        assert(as_positions(r@) =~= Seq::<int>::empty());
        return r;
    }
    let k = (total - 1) / target + 1;
    proof {
        let t = target as int;
        let a = (total - 1) as int;
        vstd::arithmetic::div_mod::lemma_fundamental_div_mod(a, t);
        let q = a / t;
        let rr = a % t;
        assert(a + t == (q + 1) * t + rr) by (nonlinear_arith)
            requires
                a == t * q + rr,
        ;
        vstd::arithmetic::div_mod::lemma_fundamental_div_mod_converse(a + t, t, q + 1, rr);
        assert(k == ceil_div(total as int, target as int));
    }
    let start = (seed % (k as u64)) as usize;
    let avail: usize = if start >= n { 0 } else { (n - 1 - start) / k + 1 };
    let count: usize = if avail < target { avail } else { target };
    proof {
        if start < n {
            let d = (n - 1 - start) as int;
            vstd::arithmetic::div_mod::lemma_fundamental_div_mod(d, k as int);
            assert((d / (k as int)) * k <= d) by (nonlinear_arith)
                requires
                    d == (k as int) * (d / (k as int)) + d % (k as int),
                    0 <= d % (k as int),
            ;
        }
    }
    let mut r: Vec<usize> = Vec::new();
    let mut j: usize = 0;
    while j < count
        invariant
            k >= 1,
            j <= count,
            count <= avail,
            avail == (if start >= n { 0 } else { (n - 1 - start) as int / (k as int) + 1 }),
            start < n ==> ((avail - 1) * k <= n - 1 - start),
            r@.len() == j,
            forall|m: int| 0 <= m < j ==> #[trigger] r@[m] == start + m * k,
        decreases count - j,
    {
        assert(start + j * k <= n - 1) by (nonlinear_arith)
            requires
                j < avail,
                (avail - 1) * k <= n - 1 - start,
                k >= 1,
        ;
        r.push(start + j * k);
        j = j + 1;
    }
    assert(as_positions(r@) =~= every_kth(n as int, k as int, start as int, target as int));
    r
}

/// The hash-modulo rows: see `hash_pick`.
pub fn hash_rows(n: usize, target: usize, seed: u64) -> (r: Vec<usize>)
    ensures
        as_positions(r@) == hash_pick(n as int, target as int, seed as int),
{
    if n <= target {
        return every_row(n);
    }
    if target == 0 {
        let r: Vec<usize> = Vec::new();
        assert(as_positions(r@) =~= Seq::<int>::empty());
        return r;
    }
    let modulo = (n - 1) / target + 1;
    proof {
        let t = target as int;
        let a = (n - 1) as int;
        vstd::arithmetic::div_mod::lemma_fundamental_div_mod(a, t);
        let q = a / t;
        let rr = a % t;
        assert(a + t == (q + 1) * t + rr) by (nonlinear_arith)
            requires
                a == t * q + rr,
        ;
        vstd::arithmetic::div_mod::lemma_fundamental_div_mod_converse(a + t, t, q + 1, rr);
    }
    let ghost m = ceil_div(n as int, target as int);
    assert(modulo == m);
    let mut hits: Vec<usize> = Vec::new();
    let mut i: usize = 0;
    while i < n
        invariant
            i <= n,
            modulo == m,
            m >= 1,
            as_positions(hits@) == hash_hits(i as int, m, seed as int),
            hits@.len() <= i,
        decreases n - i,
    {
        assert((i as int) * (HASH_MULTIPLIER as int) + seed <= 0xffff_ffff_ffff_ffff * 0xffff_ffff + 0xffff_ffff_ffff_ffff) by (nonlinear_arith)
            requires
                0 <= i <= 0xffff_ffff_ffff_ffff,
                0 <= seed <= 0xffff_ffff_ffff_ffff,
        ;
        let h = (i as u128) * (HASH_MULTIPLIER as u128) + (seed as u128);
        if h % (modulo as u128) == 0 {
            let ghost before = hits@;
            hits.push(i);
            assert(as_positions(hits@) =~= as_positions(before).push(i as int));
        }
        i = i + 1;
    }
    if hits.len() <= target {
        return hits;
    }
    let mut r: Vec<usize> = Vec::new();
    let mut j: usize = 0;
    while j < target
        invariant
            j <= target,
            target < hits@.len(),
            r@.len() == j,
            forall|k: int| 0 <= k < j ==> #[trigger] r@[k] == hits@[k],
        decreases target - j,
    {
        r.push(hits[j]);
        j = j + 1;
    }
    assert(as_positions(r@) =~= as_positions(hits@).take(target as int));
    r
}

/// The positions where `col` holds `key`, among the first `m`, ascending.
pub open spec fn positions_of(col: Seq<CellView>, key: CellView, m: int) -> Seq<int>
    decreases m,
{
    if m <= 0 {
        Seq::empty()
    } else {
        let before = positions_of(col, key, m - 1);
        if col[m - 1] == key {
            before.push(m - 1)
        } else {
            before
        }
    }
}

/// A stratum's share of the target: `ceil(size * target / total)`, raised to the
/// floor `min_per`, capped at the stratum's size.
pub open spec fn stratum_share(size: int, target: int, total: int, min_per: int) -> int {
    let p = ceil_div(size * target, total);
    let q = if p < min_per { min_per } else { p };
    if q < size { q } else { size }
}

/// The seed of stratum `j`: the base seed plus `j`, wrapping at 64 bits.
pub open spec fn stratum_seed(seed: int, j: int) -> int {
    (seed + j) % 0x1_0000_0000_0000_0000
}

/// The size of stratum `j` of `col`.
pub open spec fn stratum_size(col: Seq<CellView>, j: int) -> int {
    positions_of(col, distinct_values(col)[j], col.len() as int).len() as int
}

/// The share of the target that stratum `j` of `col` gets.
pub open spec fn stratum_target(col: Seq<CellView>, j: int, target: int, min_per: int) -> int {
    stratum_share(stratum_size(col, j), target, col.len() as int, min_per)
}

/// The rows picked in stratum `j` of `col`.
pub open spec fn stratum_pick(
    col: Seq<CellView>,
    j: int,
    target: int,
    min_per: int,
    seed: int,
) -> Seq<int> {
    let pos = positions_of(col, distinct_values(col)[j], col.len() as int);
    let share = stratum_share(pos.len() as int, target, col.len() as int, min_per);
    reservoir_pick(pos.len() as int, share, stratum_seed(seed, j)).map_values(|p: int| pos[p])
}

/// The rows picked in strata `0..j`, stratum after stratum.
pub open spec fn strata_pick(
    col: Seq<CellView>,
    j: int,
    target: int,
    min_per: int,
    seed: int,
) -> Seq<int>
    decreases j,
{
    if j <= 0 {
        Seq::empty()
    } else {
        strata_pick(col, j - 1, target, min_per, seed) + stratum_pick(col, j - 1, target, min_per, seed)
    }
}

/// Stratified sampling over the stratum column `col`: each distinct value, in order of
/// first appearance, is a stratum sampled by the reservoir method with its own share
/// and seed; the strata follow one another.
pub open spec fn stratified_pick(col: Seq<CellView>, target: int, min_per: int, seed: int) -> Seq<int> {
    if col.len() <= target {
        all_rows(col.len() as int)
    } else {
        strata_pick(col, distinct_values(col).len() as int, target, min_per, seed)
    }
}

proof fn lemma_lowest_ranked_bound(n: int, m: int, target: int, seed: int)
    ensures
        forall|k: int| 0 <= k < lowest_ranked(n, m, target, seed).len() ==> 0 <= #[trigger] lowest_ranked(
            n,
            m,
            target,
            seed,
        )[k] < m,
    decreases m,
{
    if m > 0 {
        lemma_lowest_ranked_bound(n, m - 1, target, seed);
        let before = lowest_ranked(n, m - 1, target, seed);
        let now = lowest_ranked(n, m, target, seed);
        assert forall|k: int| 0 <= k < now.len() implies 0 <= #[trigger] now[k] < m by {
            if k < before.len() {
                assert(now[k] == before[k]);
            }
        }
    }
}

/// Reservoir picks are rows of the input.
pub proof fn lemma_reservoir_in_range(n: int, target: int, seed: int)
    requires
        n >= 0,
    ensures
        forall|k: int| 0 <= k < reservoir_pick(n, target, seed).len() ==> 0 <= #[trigger] reservoir_pick(
            n,
            target,
            seed,
        )[k] < n,
{
    if n > target {
        lemma_lowest_ranked_bound(n, n, target, seed);
    } else {
        assert forall|k: int| 0 <= k < reservoir_pick(n, target, seed).len() implies 0 <= #[trigger] reservoir_pick(
            n,
            target,
            seed,
        )[k] < n by {
            assert(all_rows(n)[k] == k);
        }
    }
}

/// Systematic picks are rows of the input, at most `n` of them, and at most `target`
/// when sampling happens.
pub proof fn lemma_systematic_in_range(n: int, total: int, target: int, seed: int)
    requires
        n >= 0,
        total >= 0,
        target >= 0,
        seed >= 0,
    ensures
        forall|k: int| 0 <= k < systematic_pick(n, total, target, seed).len() ==> 0 <= #[trigger] systematic_pick(
            n,
            total,
            target,
            seed,
        )[k] < n,
        systematic_pick(n, total, target, seed).len() <= n,
        total > target ==> systematic_pick(n, total, target, seed).len() <= target,
{
    if total <= target {
        assert forall|k: int| 0 <= k < systematic_pick(n, total, target, seed).len() implies 0 <= #[trigger] systematic_pick(
            n,
            total,
            target,
            seed,
        )[k] < n by {
            assert(all_rows(n)[k] == k);
        }
    } else if target > 0 {
        let k = ceil_div(total, target);
        assert(k >= 1) by {
            vstd::arithmetic::div_mod::lemma_div_is_ordered(target, total + target - 1, target);
            vstd::arithmetic::div_mod::lemma_div_basics(target);
        }
        let start = seed % k;
        let s = every_kth(n, k, start, target);
        assert forall|j: int| 0 <= j < s.len() implies 0 <= #[trigger] s[j] < n by {
            let d = n - 1 - start;
            vstd::arithmetic::div_mod::lemma_fundamental_div_mod(d, k);
            assert(j <= d / k);
            assert(j * k <= (d / k) * k) by (nonlinear_arith)
                requires
                    j <= d / k,
                    k >= 1,
                    j >= 0,
            ;
            assert((d / k) * k <= d) by (nonlinear_arith)
                requires
                    d == k * (d / k) + d % k,
                    d % k >= 0,
            ;
            assert(j * k >= 0) by (nonlinear_arith)
                requires
                    j >= 0,
                    k >= 1,
            ;
        }
        if start < n {
            let d = n - 1 - start;
            assert(d / k <= d) by {
                vstd::arithmetic::div_mod::lemma_div_is_ordered_by_denominator(d, 1, k);
            }
        }
    }
}

proof fn lemma_hash_hits_bound(m: int, modulo: int, seed: int)
    ensures
        forall|k: int| 0 <= k < hash_hits(m, modulo, seed).len() ==> 0 <= #[trigger] hash_hits(m, modulo, seed)[k] < m,
        hash_hits(m, modulo, seed).len() <= if m < 0 { 0 } else { m },
    decreases m,
{
    if m > 0 {
        lemma_hash_hits_bound(m - 1, modulo, seed);
        let before = hash_hits(m - 1, modulo, seed);
        let now = hash_hits(m, modulo, seed);
        assert forall|k: int| 0 <= k < now.len() implies 0 <= #[trigger] now[k] < m by {
            if k < before.len() {
                assert(now[k] == before[k]);
            }
        }
    }
}

/// Hash-modulo picks are rows of the input, at most `n` of them.
pub proof fn lemma_hash_in_range(n: int, target: int, seed: int)
    requires
        n >= 0,
    ensures
        forall|k: int| 0 <= k < hash_pick(n, target, seed).len() ==> 0 <= #[trigger] hash_pick(n, target, seed)[k] < n,
        hash_pick(n, target, seed).len() <= n,
{
    if n <= target {
        assert forall|k: int| 0 <= k < hash_pick(n, target, seed).len() implies 0 <= #[trigger] hash_pick(n, target, seed)[k] < n by {
            assert(all_rows(n)[k] == k);
        }
    } else if target > 0 {
        lemma_hash_hits_bound(n, ceil_div(n, target), seed);
    }
}

/// The positions where the cells equal `key`.
pub fn positions_in(col: &Vec<Cell>, key: &Cell) -> (r: Vec<usize>)
    ensures
        as_positions(r@) == positions_of(cells_view(col@), key@, col@.len() as int),
        forall|k: int| 0 <= k < r@.len() ==> #[trigger] r@[k] < col@.len(),
{
    let ghost cv = cells_view(col@);
    let mut r: Vec<usize> = Vec::new();
    let mut i: usize = 0;
    while i < col.len()
        invariant
            i <= col@.len(),
            cv == cells_view(col@),
            as_positions(r@) == positions_of(cv, key@, i as int),
            forall|k: int| 0 <= k < r@.len() ==> #[trigger] r@[k] < i,
        decreases col@.len() - i,
    {
        assert(cv[i as int] == col@[i as int]@);
        if col[i].same_as(key) {
            let ghost before = r@;
            r.push(i);
            assert(as_positions(r@) =~= as_positions(before).push(i as int));
        }
        i = i + 1;
    }
    r
}

fn share_exec(size: usize, target: usize, total: usize, min_per: usize) -> (r: usize)
    requires
        total > 0,
    ensures
        r == stratum_share(size as int, target as int, total as int, min_per as int),
{
    assert((size as int) * (target as int) <= 0xffff_ffff_ffff_ffff * 0xffff_ffff_ffff_ffff) by (nonlinear_arith)
        requires
            0 <= size <= 0xffff_ffff_ffff_ffff,
            0 <= target <= 0xffff_ffff_ffff_ffff,
    ;
    let prod = (size as u128) * (target as u128);
    let p = (prod + (total as u128) - 1) / (total as u128);
    let q = if p < min_per as u128 { min_per as u128 } else { p };
    if q < size as u128 { q as usize } else { size }
}

/// A stratum of a stratified sample: its value, its size and how many of its rows were kept.
#[derive(Debug)]
pub struct StratumCount {
    pub value: Cell,
    pub size: usize,
    /// The stratum's share of the target.
    pub share: usize,
    pub picked: usize,
}

/// The stratified rows of `col`: see `stratified_pick`. With more rows than the target,
/// also each stratum's count.
pub fn stratified_rows(col: &Vec<Cell>, target: usize, min_per: usize, seed: u64) -> (r: (
    Vec<usize>,
    Vec<StratumCount>,
))
    ensures
        as_positions(r.0@) == stratified_pick(cells_view(col@), target as int, min_per as int, seed as int),
        col@.len() > target ==> r.1@.len() == distinct_values(cells_view(col@)).len(),
        col@.len() > target ==> forall|j: int| #![trigger r.1@[j]] 0 <= j < r.1@.len() ==> {
            &&& r.1@[j].value@ == distinct_values(cells_view(col@))[j]
            &&& r.1@[j].size == stratum_size(cells_view(col@), j)
            &&& r.1@[j].share == stratum_target(cells_view(col@), j, target as int, min_per as int)
            &&& r.1@[j].picked == stratum_pick(cells_view(col@), j, target as int, min_per as int, seed as int).len()
        },
        forall|k: int| 0 <= k < r.0@.len() ==> #[trigger] r.0@[k] < col@.len(),
{
    let ghost cv = cells_view(col@);
    let n = col.len();
    if n <= target {
        let all = every_row(n);
        assert forall|k: int| 0 <= k < all@.len() implies #[trigger] all@[k] < col@.len() by {
            assert(as_positions(all@).len() == all@.len());
            assert(as_positions(all@)[k] == all@[k] as int);
            assert(all_rows(n as int).len() == n);
            assert(all_rows(n as int)[k] == k);
        }
        return (all, Vec::new());
    }
    let keys = distinct_cells(col);
    let mut out: Vec<usize> = Vec::new();
    let mut counts: Vec<StratumCount> = Vec::new();
    let mut j: usize = 0;
    while j < keys.len()
        invariant
            n == col@.len(),
            n > target,
            cv == cells_view(col@),
            cells_view(keys@) == distinct_values(cv),
            j <= keys@.len(),
            counts@.len() == j,
            forall|q: int| #![trigger counts@[q]] 0 <= q < j ==> {
                &&& counts@[q].value@ == distinct_values(cv)[q]
                &&& counts@[q].size == stratum_size(cv, q)
                &&& counts@[q].share == stratum_target(cv, q, target as int, min_per as int)
                &&& counts@[q].picked == stratum_pick(cv, q, target as int, min_per as int, seed as int).len()
            },
            as_positions(out@) == strata_pick(cv, j as int, target as int, min_per as int, seed as int),
            forall|k: int| 0 <= k < out@.len() ==> #[trigger] out@[k] < n,
        decreases keys@.len() - j,
    {
        let pos = positions_in(col, &keys[j]);
        assert(keys@[j as int]@ == distinct_values(cv)[j as int]);
        let size = pos.len();
        let share = share_exec(size, target, n, min_per);
        let s = seed.wrapping_add(j as u64);
        assert(s == stratum_seed(seed as int, j as int));
        let picks = reservoir_rows(size, share, s);
        proof {
            lemma_reservoir_in_range(size as int, share as int, s as int);
            assert forall|k: int| 0 <= k < picks@.len() implies #[trigger] picks@[k] < size by {
                assert(as_positions(picks@)[k] == picks@[k] as int);
            }
        }
        let ghost before = out@;
        let ghost stratum = stratum_pick(cv, j as int, target as int, min_per as int, seed as int);
        assert(stratum.len() == picks@.len());
        assert forall|k: int| 0 <= k < picks@.len() implies #[trigger] stratum[k] == pos@[picks@[k] as int] as int by {
            assert(as_positions(picks@)[k] == picks@[k] as int);
            assert(as_positions(pos@)[picks@[k] as int] == pos@[picks@[k] as int] as int);
        }
        let mut m: usize = 0;
        while m < picks.len()
            invariant
                m <= picks@.len(),
                stratum.len() == picks@.len(),
                forall|k: int| 0 <= k < picks@.len() ==> #[trigger] picks@[k] < size,
                size == pos@.len(),
                forall|k: int| 0 <= k < pos@.len() ==> #[trigger] pos@[k] < n,
                forall|k: int| 0 <= k < picks@.len() ==> #[trigger] stratum[k] == pos@[picks@[k] as int] as int,
                out@.len() == before.len() + m,
                forall|k: int| 0 <= k < out@.len() ==> #[trigger] out@[k] < n,
                forall|k: int| 0 <= k < before.len() ==> #[trigger] out@[k] == before[k],
                forall|k: int| 0 <= k < m ==> #[trigger] out@[before.len() + k] == stratum[k],
            decreases picks@.len() - m,
        {
            let p = picks[m];
            out.push(pos[p]);
            m = m + 1;
        }
        assert forall|k: int| 0 <= k < out@.len() implies #[trigger] as_positions(out@)[k] == (as_positions(before) + stratum)[k] by {
            if k < before.len() {
            } else {
                assert(out@[before.len() + (k - before.len())] == stratum[k - before.len()]);
            }
        }
        assert(as_positions(out@) =~= as_positions(before) + stratum);
        let ghost cbefore = counts@;
        counts.push(StratumCount { value: keys[j].duplicate(), size, share, picked: picks.len() });
        assert(forall|q: int| 0 <= q < j ==> counts@[q] == cbefore[q]);
        j = j + 1;
    }
    (out, counts)
}

} // verus!
