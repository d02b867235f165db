//! The immutable dependency-graph description: one `Node` per declared
//! dependency, each with a kind, a caching policy, a constructor strategy and
//! an ordered list of argument nodes. The graph is built once, validated, and
//! never mutated afterwards.

use vstd::prelude::*;

verus! {

/// Whether a node is a declared constant or a service.
#[derive(Clone, Copy, PartialEq, Eq, Structural, Debug)]
pub enum NodeKind {
    Constant,
    Service,
}

/// How a node's value is produced. `DefaultCtor` stands for the value type's
/// zero-argument default construction, `NamedFactory` for a designated
/// factory identified by a code, `Closure` for a user-supplied function value
/// identified by a code, and `ConstantExpr` holds the literal value of a
/// constant node. The codes of factories and closures are interpreted by the
/// constructor dispatcher handed to the injector.
pub enum Ctor<V> {
    DefaultCtor,
    NamedFactory(u64),
    Closure(u64),
    ConstantExpr(V),
}

/// The request the resolver hands to the constructor dispatcher when a node
/// is built by user code: which strategy, and for factories and closures,
/// which one. Constant nodes never reach the dispatcher.
#[derive(Clone, Copy, PartialEq, Eq, Structural, Debug)]
pub enum CtorCall {
    CallDefault,
    CallFactory(u64),
    CallClosure(u64),
}

/// One declared dependency. `args` lists the ids of the nodes whose resolved
/// values are passed positionally to the constructor, in declared order.
pub struct Node<V> {
    pub kind: NodeKind,
    pub singleton: bool,
    pub ctor: Ctor<V>,
    pub args: Vec<usize>,
}

/// The immutable mapping from node id (the index) to node.
pub struct Graph<V> {
    pub nodes: Vec<Node<V>>,
}

impl<V> Node<V> {
    /// Whether a constructed value of this node is retained and reused:
    /// constants always cache, services cache exactly when declared singleton.
    pub open spec fn caches(self) -> bool {
        self.kind is Constant || self.singleton
    }

    /// The dispatcher request for this node's strategy. Meaningful only for
    /// nodes that are not constants.
    pub open spec fn call_tag(self) -> CtorCall {
        match self.ctor {
            Ctor::DefaultCtor => CtorCall::CallDefault,
            Ctor::NamedFactory(code) => CtorCall::CallFactory(code),
            Ctor::Closure(code) => CtorCall::CallClosure(code),
            Ctor::ConstantExpr(_) => CtorCall::CallDefault,
        }
    }

    /// Validity of one node against a graph of `n` nodes: every argument id
    /// exists, constant nodes are exactly the ones built from a constant
    /// expression, and the two zero-argument strategies take no arguments.
    pub open spec fn wf(self, n: nat) -> bool {
        &&& forall|i: int| 0 <= i < self.args@.len() ==> (#[trigger] self.args@[i]) < n
        &&& (self.kind is Constant <==> self.ctor is ConstantExpr)
        &&& (self.ctor is ConstantExpr ==> self.args@.len() == 0)
        &&& (self.ctor is DefaultCtor ==> self.args@.len() == 0)
    }
}

impl<V> Graph<V> {
    pub open spec fn node_len(self) -> nat {
        self.nodes@.len()
    }

    pub open spec fn node_at(self, m: int) -> Node<V> {
        self.nodes@[m]
    }

    /// A validated graph description: every node is well formed, so in
    /// particular no argument id dangles.
    pub open spec fn wf(self) -> bool {
        forall|m: int|
            0 <= m < self.node_len() ==> (#[trigger] self.nodes@[m]).wf(self.node_len())
    }

    /// `b` is a declared argument of `a`.
    pub open spec fn edge(self, a: int, b: int) -> bool {
        &&& 0 <= a < self.node_len()
        &&& exists|i: int|
            0 <= i < self.node_at(a).args@.len() && (#[trigger] self.node_at(a).args@[i]) as int
                == b
    }

    /// `p` walks the graph along declared argument references.
    pub open spec fn is_args_path(self, p: Seq<int>) -> bool {
        forall|i: int| 0 <= i < p.len() - 1 ==> self.edge(#[trigger] p[i], p[i + 1])
    }

    /// Node `m` lies on a circular dependency chain: some argument path
    /// leads from `m` back to `m`.
    pub open spec fn has_cycle_at(self, m: int) -> bool {
        exists|p: Seq<int>|
            {
                &&& #[trigger] self.is_args_path(p)
                &&& p.len() >= 2
                &&& p[0] == m
                &&& p[p.len() - 1] == m
            }
    }
}

} // verus!
