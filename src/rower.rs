//! Row visitors: the accumulators a scan folds rows into, and the
//! combination of per-part results.

use vstd::prelude::*;

use crate::row::{Row, Value};

verus! {

/// An accumulator over rows. `visit` folds in one row; `join` combines two
/// accumulators that started from copies of one accumulator.
pub trait Rower: Sized {
    /// The state after visiting a row with the given cells and index. An
    /// implementation states it; one that does not leaves it unknown.
    closed spec fn step(self, cells: Seq<Value>, idx: Option<usize>) -> Self {
        arbitrary()
    }

    /// The state that `join` returns; unknown unless the implementation
    /// states it.
    closed spec fn combine(self, other: Self) -> Self {
        arbitrary()
    }

    /// Folds in one row. The result asks the scan to go on (`true`) or allows
    /// it to stop; the engine visits every row of its range either way.
    fn visit(&mut self, r: &Row) -> (keep_going: bool)
        ensures
            *final(self) == old(self).step(r.cells(), r.idx),
    ;

    /// Combines this accumulator with another.
    fn join(self, other: Self) -> (r: Self)
        ensures
            r == self.combine(other),
    ;

    /// An independent copy of this accumulator.
    fn duplicate(&self) -> (r: Self)
        ensures
            r == *self,
    ;
}

/// The state of `v` after visiting rows `lo .. hi` of `rows` in order, each
/// with its index.
pub open spec fn scan<R: Rower>(v: R, rows: Seq<Seq<Value>>, lo: int, hi: int) -> R
    decreases hi - lo,
{
    if hi <= lo {
        v
    } else {
        scan(v, rows, lo, hi - 1).step(rows[hi - 1], Some((hi - 1) as usize))
    }
}

/// The first `k` parts joined from the left: `((p0 + p1) + p2) + ...`.
pub open spec fn join_prefix<R: Rower>(parts: Seq<R>, k: int) -> R
    decreases k,
{
    if k <= 1 {
        parts[0]
    } else {
        join_prefix(parts, k - 1).combine(parts[k - 1])
    }
}

/// All parts joined from the left.
pub open spec fn join_all<R: Rower>(parts: Seq<R>) -> R {
    join_prefix(parts, parts.len() as int)
}

/// Joins the parts from the left, first with second, that with third, and
/// so on.
pub fn join_blocks<R: Rower>(results: Vec<R>) -> (r: R)
    requires
        results@.len() > 0,
    ensures
        r == join_all(results@),
{
    let ghost parts = results@;
    let mut rest = results;
    let mut acc = rest.remove(0);
    let ghost mut k: int = 1;
    assert(rest@ =~= parts.subrange(k, parts.len() as int));
    while rest.len() > 0
        invariant
            1 <= k <= parts.len(),
            rest@ == parts.subrange(k, parts.len() as int),
            acc == join_prefix(parts, k),
        decreases rest@.len(),
    {
        let next = rest.remove(0);
        acc = acc.join(next);
        proof {
            k = k + 1;
            assert(rest@ =~= parts.subrange(k, parts.len() as int));
        }
    }
    acc
}

/// Counts the rows it visits, saturating at `u64::MAX`.
pub struct RowCounter {
    pub count: u64,
}

/// `a + b`, or `u64::MAX` when that does not fit.
pub open spec fn saturating_sum(a: u64, b: u64) -> u64 {
    if a + b <= u64::MAX {
        (a + b) as u64
    } else {
        u64::MAX
    }
}

impl Rower for RowCounter {
    open spec fn step(self, cells: Seq<Value>, idx: Option<usize>) -> Self {
        RowCounter { count: saturating_sum(self.count, 1) }
    }

    open spec fn combine(self, other: Self) -> Self {
        RowCounter { count: saturating_sum(self.count, other.count) }
    }

    fn visit(&mut self, r: &Row) -> (keep_going: bool) {
        self.count = self.count.saturating_add(1);
        true
    }

    fn join(self, other: Self) -> (r: Self) {
        RowCounter { count: self.count.saturating_add(other.count) }
    }

    fn duplicate(&self) -> (r: Self) {
        RowCounter { count: self.count }
    }
}

} // verus!
