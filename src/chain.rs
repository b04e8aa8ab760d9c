//! The chain-reduce protocol: node `num_nodes` starts the chain, every
//! other node joins its local result with the running combination it
//! receives from its higher neighbour and forwards it to its lower one, and
//! node 1 ends holding the combination of all nodes.

use vstd::arithmetic::div_mod::lemma_fundamental_div_mod;
use vstd::arithmetic::mul::lemma_mul_inequality;
use vstd::prelude::*;

use crate::rower::{saturating_sum, scan, RowCounter, Rower};
use crate::row::Value;

verus! {

/// The key of one node's partition of a named data set.
pub struct Key {
    /// The name of the data set.
    pub namespace: String,
    /// The node that holds this partition, from 1.
    pub node_id: usize,
}

impl Key {
    /// The key of node `node_id`'s partition of `namespace`.
    pub fn new(namespace: &str, node_id: usize) -> (r: Self)
        ensures
            r.namespace@ == namespace@,
            r.node_id == node_id,
    {
        Key { namespace: namespace.to_owned(), node_id }
    }
}

/// What a node does next in one round of the chain.
pub enum Step<R> {
    /// Send `acc` to node `to`; this node's round then ends without a result.
    Forward { to: usize, acc: R },
    /// Wait for the running combination from the next node up, then join it
    /// with this local result.
    Await(R),
    /// This node holds the combined result of the round.
    Finish(R),
}

/// One node's place in the chain.
pub struct Coordinator {
    /// This node, from 1.
    pub node_id: usize,
    /// The number of nodes in the cluster.
    pub num_nodes: usize,
}

impl Coordinator {
    /// Node ids run from 1 to `num_nodes`.
    pub open spec fn wf(&self) -> bool {
        1 <= self.node_id <= self.num_nodes
    }

    /// What the node does once its local result is ready.
    pub open spec fn begin_spec<R>(&self, local: R) -> Step<R> {
        if self.node_id == self.num_nodes {
            if self.node_id == 1 {
                Step::Finish(local)
            } else {
                Step::Forward { to: (self.node_id - 1) as usize, acc: local }
            }
        } else {
            Step::Await(local)
        }
    }

    /// What the node does once the combination from the next node arrived.
    pub open spec fn on_blob_spec<R: Rower>(&self, local: R, inbound: R) -> Step<R> {
        let joined = local.combine(inbound);
        if self.node_id == 1 {
            Step::Finish(joined)
        } else {
            Step::Forward { to: (self.node_id - 1) as usize, acc: joined }
        }
    }

    /// The coordinator of node `node_id` in a cluster of `num_nodes`.
    pub fn new(node_id: usize, num_nodes: usize) -> (r: Self)
        requires
            1 <= node_id <= num_nodes,
        ensures
            r.wf(),
            r.node_id == node_id,
            r.num_nodes == num_nodes,
    {
        Coordinator { node_id, num_nodes }
    }

    /// The byte range `(offset, length)` of a source file of `file_len`
    /// bytes that this node loads: equal shares of `file_len / num_nodes`
    /// bytes in node order, the last node also taking the remainder, so that
    /// the ranges of all nodes cover the file without overlap.
    pub fn byte_range(&self, file_len: u64) -> (r: (u64, u64))
        requires
            self.wf(),
        ensures
            r.0 == (self.node_id - 1) * (file_len as int / self.num_nodes as int),
            self.node_id < self.num_nodes ==> r.1 == file_len as int / self.num_nodes as int,
            self.node_id == self.num_nodes ==> r.0 + r.1 == file_len,
    {
        let share: u64 = file_len / (self.num_nodes as u64);
        let k: u64 = (self.node_id - 1) as u64;
        proof {
            let n = self.num_nodes as int;
            lemma_fundamental_div_mod(file_len as int, n);
            lemma_mul_inequality(k as int, n, share as int);
            assert(n * share == share * n) by (nonlinear_arith);
            assert(k * share == share * k) by (nonlinear_arith);
            assert((k + 1) * share == k * share + share) by (nonlinear_arith);
            lemma_mul_inequality(k as int + 1, n, share as int);
        }
        let from: u64 = k * share;
        if self.node_id == self.num_nodes {
            (from, file_len - from)
        } else {
            (from, share)
        }
    }

    /// The key of this node's partition of `namespace`.
    pub fn partition_key(&self, namespace: &str) -> (r: Key)
        ensures
            r.namespace@ == namespace@,
            r.node_id == self.node_id,
    {
        Key::new(namespace, self.node_id)
    }

    /// The step after the local scan: the last node starts the chain by
    /// forwarding its result down (or finishes when it is the only node);
    /// every other node waits for the combination from above.
    pub fn begin<R: Rower>(&self, local: R) -> (r: Step<R>)
        requires
            self.wf(),
        ensures
            r == self.begin_spec(local),
    {
        if self.node_id == self.num_nodes {
            if self.node_id == 1 {
                Step::Finish(local)
            } else {
                Step::Forward { to: self.node_id - 1, acc: local }
            }
        } else {
            Step::Await(local)
        }
    }

    /// The step after the combination from the next node up arrived: join
    /// it into the local result, then finish at node 1 or forward down.
    pub fn on_blob<R: Rower>(&self, local: R, inbound: R) -> (r: Step<R>)
        requires
            self.wf(),
            self.node_id < self.num_nodes,
        ensures
            r == self.on_blob_spec(local, inbound),
    {
        let joined = local.join(inbound);
        if self.node_id == 1 {
            Step::Finish(joined)
        } else {
            Step::Forward { to: self.node_id - 1, acc: joined }
        }
    }
}

/// The running combination that leaves the node at index `k` (node `k + 1`)
/// of a chain whose local results are `locals`:
/// `locals[k] + (locals[k + 1] + (... + locals[last]))`.
pub open spec fn chain_value<R: Rower>(locals: Seq<R>, k: int) -> R
    decreases locals.len() - k,
{
    if k >= locals.len() - 1 {
        locals[locals.len() - 1]
    } else {
        locals[k].combine(chain_value(locals, k + 1))
    }
}

/// A round of the chain over nodes with local results `locals` (node `i`
/// holding `locals[i - 1]`), seen at node `node_id`: node `n` forwards its
/// result to node `n - 1`; each node `i < n` waits, joins its result with
/// the combination that node `i + 1` forwards and forwards that to node
/// `i - 1`, so that every node but node 1 returns nothing and node 1 returns
/// the combination of all local results.
pub proof fn lemma_chain_reduce<R: Rower>(locals: Seq<R>, node_id: usize)
    requires
        1 <= node_id <= locals.len() <= usize::MAX,
    ensures
        ({
            let n = locals.len() as usize;
            let c = Coordinator { node_id, num_nodes: n };
            let local = locals[node_id - 1];
            &&& node_id == n && n == 1 ==> c.begin_spec(local) == Step::Finish(
                chain_value(locals, 0),
            )
            &&& node_id == n && n > 1 ==> c.begin_spec(local) == Step::Forward {
                to: (n - 1) as usize,
                acc: chain_value(locals, n - 1),
            }
            &&& node_id < n ==> c.begin_spec(local) == Step::Await(local)
            &&& node_id < n && node_id == 1 ==> c.on_blob_spec(
                local,
                chain_value(locals, node_id as int),
            ) == Step::Finish(chain_value(locals, 0))
            &&& node_id < n && node_id > 1 ==> c.on_blob_spec(
                local,
                chain_value(locals, node_id as int),
            ) == Step::Forward { to: (node_id - 1) as usize, acc: chain_value(locals, node_id - 1) }
        }),
{
    if node_id < locals.len() {
        assert(chain_value(locals, node_id - 1) == locals[node_id - 1].combine(
            chain_value(locals, node_id as int),
        ));
    }
}

/// The number of rows in the partitions from index `k` on.
pub open spec fn rows_from(parts: Seq<Seq<Seq<Value>>>, k: int) -> int
    decreases parts.len() - k,
{
    if k >= parts.len() {
        0
    } else {
        parts[k].len() + rows_from(parts, k + 1)
    }
}

/// The local results of row counters that start at zero on each partition.
pub open spec fn local_counts(parts: Seq<Seq<Seq<Value>>>) -> Seq<RowCounter> {
    Seq::new(
        parts.len(),
        |k: int| scan(RowCounter { count: 0 }, parts[k], 0, parts[k].len() as int),
    )
}

/// A counter that starts at zero counts the rows it scans, up to `u64::MAX`.
pub proof fn lemma_counter_scan(rows: Seq<Seq<Value>>, hi: int)
    requires
        0 <= hi,
    ensures
        scan(RowCounter { count: 0 }, rows, 0, hi).count == if hi <= u64::MAX {
            hi
        } else {
            u64::MAX as int
        },
    decreases hi,
{
    if hi > 0 {
        lemma_counter_scan(rows, hi - 1);
    }
}

proof fn lemma_chain_counts(parts: Seq<Seq<Seq<Value>>>, k: int)
    requires
        0 <= k < parts.len(),
    ensures
        chain_value(local_counts(parts), k).count == if rows_from(parts, k) <= u64::MAX {
            rows_from(parts, k)
        } else {
            u64::MAX as int
        },
    decreases parts.len() - k,
{
    lemma_counter_scan(parts[k], parts[k].len() as int);
    if k < parts.len() - 1 {
        lemma_chain_counts(parts, k + 1);
    }
    assert(rows_from(parts, k + 1) >= 0) by {
        lemma_rows_from_nonneg(parts, k + 1);
    }
}

proof fn lemma_rows_from_nonneg(parts: Seq<Seq<Seq<Value>>>, k: int)
    ensures
        rows_from(parts, k) >= 0,
    decreases parts.len() - k,
{
    if k < parts.len() {
        lemma_rows_from_nonneg(parts, k + 1);
    }
}

/// Counting rows over a cluster: when each node scans its partition with a
/// fresh row counter and the chain combines the counts, node 1 returns the
/// total number of rows of all partitions (while that fits in a `u64`).
pub proof fn lemma_chain_counts_rows(parts: Seq<Seq<Seq<Value>>>)
    requires
        1 <= parts.len(),
        rows_from(parts, 0) <= u64::MAX,
    ensures
        chain_value(local_counts(parts), 0).count == rows_from(parts, 0),
{
    lemma_chain_counts(parts, 0);
}

} // verus!
