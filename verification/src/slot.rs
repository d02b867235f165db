//! The per-node mutable cell. A slot is `Empty` before any construction (and
//! again after each construction of a node that does not cache),
//! `InProgress` while a construction of the node is underway on the current
//! resolution chain, and `Cached(v)` once a caching node has been built.

use crate::graph::Graph;
use vstd::prelude::*;

verus! {

/// The tri-state resolution cell of one node.
pub enum Slot<V> {
    Empty,
    InProgress,
    Cached(V),
}

/// The slot table is consistent with the graph: one slot per node, and only
/// nodes whose policy caches ever hold a retained value.
pub open spec fn slots_wf<V>(g: Graph<V>, s: Seq<Slot<V>>) -> bool {
    &&& s.len() == g.node_len()
    &&& forall|m: int| 0 <= m < s.len() && (#[trigger] s[m]) is Cached ==> g.node_at(m).caches()
}

/// No construction is underway: the state of the table between top-level
/// resolutions.
pub open spec fn at_rest<V>(s: Seq<Slot<V>>) -> bool {
    forall|m: int| 0 <= m < s.len() ==> !((#[trigger] s[m]) is InProgress)
}

} // verus!
