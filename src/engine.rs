//! The local map engine: sequential scans of a data frame, its split into
//! contiguous blocks for parallel scans, and the law that joins the block
//! results back into the sequential result.

use vstd::arithmetic::div_mod::lemma_fundamental_div_mod;
use vstd::arithmetic::mul::lemma_mul_inequality;
use vstd::prelude::*;

use crate::dataframe::DataFrame;
use crate::row::{Row, Value};
use crate::rower::{join_all, join_prefix, scan, Rower};

verus! {

/// The number of blocks that `n` rows are split into for `t` threads: `t`,
/// at least 1 and at most `n` when there are rows, so that no block is empty.
pub open spec fn block_count(n: int, t: int) -> int {
    if t <= 1 || n <= 1 {
        1
    } else if t > n {
        n
    } else {
        t
    }
}

/// Block `i` of the split of `n` rows for `t` threads, as `(start, end)`:
/// blocks of `n / block_count` rows, the last one taking the remainder.
pub open spec fn block_span(n: int, t: int, i: int) -> (int, int) {
    let k = block_count(n, t);
    let step = n / k;
    (i * step, if i == k - 1 { n } else { (i + 1) * step })
}

/// `bounds` splits `0 .. n` into contiguous ranges, in order.
pub open spec fn is_split(bounds: Seq<(usize, usize)>, n: int) -> bool {
    &&& bounds.len() > 0
    &&& bounds[0].0 == 0
    &&& bounds.last().1 == n
    &&& forall|i: int| 0 <= i < bounds.len() ==> (#[trigger] bounds[i]).0 <= bounds[i].1
    &&& forall|i: int| 0 <= i < bounds.len() - 1 ==> (#[trigger] bounds[i]).1 == bounds[i + 1].0
}

proof fn lemma_block_step(n: int, t: int, i: int)
    requires
        0 <= n,
        0 <= i < block_count(n, t),
    ensures
        n > 0 ==> n / block_count(n, t) >= 1,
        0 <= i * (n / block_count(n, t)),
        (i + 1) * (n / block_count(n, t)) <= n,
{
    let k = block_count(n, t);
    let step = n / k;
    lemma_fundamental_div_mod(n, k);
    assert(0 <= n % k < k);
    assert(step >= 0);
    lemma_mul_inequality(0, i, step);
    lemma_mul_inequality(i + 1, k, step);
    assert(k * step == step * k) by (nonlinear_arith);
    if n > 0 && step == 0 {
        assert(k * step == 0) by (nonlinear_arith)
            requires
                step == 0,
        ;
    }
    assert(0 * step == 0) by (nonlinear_arith);
}

/// Splits `n_rows` rows into the contiguous blocks of `block_span` for
/// `n_threads` threads.
pub fn block_bounds(n_rows: usize, n_threads: usize) -> (r: Vec<(usize, usize)>)
    ensures
        r@.len() == block_count(n_rows as int, n_threads as int),
        forall|i: int|
            0 <= i < r@.len() ==> (#[trigger] r@[i]).0 as int == block_span(
                n_rows as int,
                n_threads as int,
                i,
            ).0 && r@[i].1 as int == block_span(n_rows as int, n_threads as int, i).1,
        is_split(r@, n_rows as int),
        n_rows > 0 ==> forall|i: int| 0 <= i < r@.len() ==> (#[trigger] r@[i]).0 < r@[i].1,
{
    let k: usize = if n_threads <= 1 || n_rows <= 1 {
        1
    } else if n_threads > n_rows {
        n_rows
    } else {
        n_threads
    };
    let step: usize = n_rows / k;
    let mut out: Vec<(usize, usize)> = Vec::new();
    let mut lo: usize = 0;
    let mut i: usize = 0;
    while i < k
        invariant
            k == block_count(n_rows as int, n_threads as int),
            step == n_rows as int / k as int,
            i <= k,
            i < k ==> lo as int == i * step,
            out@.len() == i,
            forall|j: int|
                0 <= j < i ==> (#[trigger] out@[j]).0 as int == block_span(
                    n_rows as int,
                    n_threads as int,
                    j,
                ).0 && out@[j].1 as int == block_span(n_rows as int, n_threads as int, j).1,
        decreases k - i,
    {
        proof {
            lemma_block_step(n_rows as int, n_threads as int, i as int);
            assert((i + 1) * step == i * step + step) by (nonlinear_arith);
        }
        let hi: usize = if i == k - 1 {
            n_rows
        } else {
            lo + step
        };
        out.push((lo, hi));
        if i + 1 < k {
            lo = lo + step;
        }
        i = i + 1;
    }
    proof {
        assert(0 * step == 0) by (nonlinear_arith);
        assert forall|j: int| 0 <= j < out@.len() - 1 implies (#[trigger] out@[j]).1 == out@[j
            + 1].0 by {
            assert((j + 1) * step == (j + 1) * step);
        }
        assert forall|j: int| 0 <= j < out@.len() implies (#[trigger] out@[j]).0 <= out@[j].1 && (
        n_rows > 0 ==> out@[j].0 < out@[j].1) by {
            lemma_block_step(n_rows as int, n_threads as int, j);
            assert((j + 1) * step == j * step + step) by (nonlinear_arith);
            if j == k - 1 && n_rows > 0 {
                lemma_block_step(n_rows as int, n_threads as int, j);
            }
        }
    }
    out
}

impl DataFrame {
    /// Visits rows `start .. end` in order, each copied into one scratch row
    /// that carries the row's index.
    pub fn map_range<R: Rower>(&self, rower: &mut R, start: usize, end: usize)
        requires
            self.wf(),
            start <= end <= self.nrows(),
        ensures
            *final(rower) == scan(*old(rower), self.table(), start as int, end as int),
    {
        let mut row = Row::new(&self.schema);
        let mut i: usize = start;
        while i < end
            invariant
                self.wf(),
                start <= i <= end <= self.nrows(),
                row.wf(),
                row.schema@ == self.types(),
                *rower == scan(*old(rower), self.table(), start as int, i as int),
            decreases end - i,
        {
            let _ = self.fill_row(i, &mut row);
            let _ = rower.visit(&row);
            i = i + 1;
        }
    }

    /// Visits every row in order.
    pub fn map<R: Rower>(&self, rower: &mut R)
        requires
            self.wf(),
        ensures
            *final(rower) == scan(*old(rower), self.table(), 0, self.nrows() as int),
    {
        let n = self.n_rows();
        self.map_range(rower, 0, n);
    }

    /// The blocks of rows that a parallel scan hands to its threads.
    pub fn blocks(&self) -> (r: Vec<(usize, usize)>)
        requires
            self.wf(),
        ensures
            r@.len() == block_count(self.nrows() as int, self.n_threads as int),
            is_split(r@, self.nrows() as int),
            self.nrows() > 0 ==> forall|i: int| 0 <= i < r@.len() ==> (#[trigger] r@[i]).0 < r@[i].1,
    {
        block_bounds(self.n_rows(), self.n_threads)
    }
}

/// The results of scanning each block of `bounds`, each from `v`.
pub open spec fn block_results<R: Rower>(v: R, rows: Seq<Seq<Value>>, bounds: Seq<(usize, usize)>) -> Seq<R> {
    Seq::new(bounds.len(), |i: int| scan(v, rows, bounds[i].0 as int, bounds[i].1 as int))
}

/// Scanning from `a.combine(b)` is `a` combined with the scan from `b`, when
/// visiting commutes with joining on the left.
proof fn lemma_scan_from_joined<R: Rower>(a: R, b: R, rows: Seq<Seq<Value>>, lo: int, hi: int)
    requires
        forall|x: R, y: R, c: Seq<Value>, k: Option<usize>| #[trigger] x.combine(y).step(c, k)
            == x.combine(y.step(c, k)),
    ensures
        scan(a.combine(b), rows, lo, hi) == a.combine(scan(b, rows, lo, hi)),
    decreases hi - lo,
{
    if hi > lo {
        lemma_scan_from_joined(a, b, rows, lo, hi - 1);
        let s = scan(b, rows, lo, hi - 1);
        assert(a.combine(s).step(rows[hi - 1], Some((hi - 1) as usize)) == a.combine(
            s.step(rows[hi - 1], Some((hi - 1) as usize)),
        ));
    }
}

/// Scanning `lo .. mid` and then `mid .. hi` is scanning `lo .. hi`.
proof fn lemma_scan_concat<R: Rower>(s: R, rows: Seq<Seq<Value>>, lo: int, mid: int, hi: int)
    requires
        lo <= mid <= hi,
    ensures
        scan(scan(s, rows, lo, mid), rows, mid, hi) == scan(s, rows, lo, hi),
    decreases hi - mid,
{
    if hi > mid {
        lemma_scan_concat(s, rows, lo, mid, hi - 1);
    }
}

/// A parallel scan agrees with the sequential one: scanning each block of a
/// split of the rows from the same start `v` and joining the block results
/// in block order gives the state of one scan over all rows from `v`. It
/// holds when visiting a row commutes with joining on the left and `v` is a
/// right unit of `join` (a fresh accumulator), as for counters, sums and
/// collectors.
pub proof fn lemma_parallel_matches_sequential<R: Rower>(
    v: R,
    rows: Seq<Seq<Value>>,
    bounds: Seq<(usize, usize)>,
)
    requires
        is_split(bounds, rows.len() as int),
        forall|x: R, y: R, c: Seq<Value>, k: Option<usize>| #[trigger] x.combine(y).step(c, k)
            == x.combine(y.step(c, k)),
        forall|x: R| #[trigger] x.combine(v) == x,
    ensures
        join_all(block_results(v, rows, bounds)) == scan(v, rows, 0, rows.len() as int),
{
    lemma_join_prefix(v, rows, bounds, bounds.len() as int);
}

proof fn lemma_join_prefix<R: Rower>(v: R, rows: Seq<Seq<Value>>, bounds: Seq<(usize, usize)>, k: int)
    requires
        1 <= k <= bounds.len(),
        is_split(bounds, rows.len() as int),
        forall|x: R, y: R, c: Seq<Value>, k: Option<usize>| #[trigger] x.combine(y).step(c, k)
            == x.combine(y.step(c, k)),
        forall|x: R| #[trigger] x.combine(v) == x,
    ensures
        join_prefix(block_results(v, rows, bounds), k) == scan(v, rows, 0, bounds[k - 1].1 as int),
    decreases k,
{
    let parts = block_results(v, rows, bounds);
    if k > 1 {
        lemma_join_prefix(v, rows, bounds, k - 1);
        let acc = join_prefix(parts, k - 1);
        let lo = bounds[k - 1].0 as int;
        let hi = bounds[k - 1].1 as int;
        assert(bounds[k - 2].1 == bounds[k - 1].0);
        assert(lo <= hi);
        lemma_scan_from_joined(acc, v, rows, lo, hi);
        assert(acc.combine(v) == acc);
        lemma_scan_concat(v, rows, 0, lo, hi);
    }
}

} // verus!
