//! The resolution engine. An [`Injector`] owns one [`Slot`] per node of an
//! immutable, validated [`Graph`] together with a constructor dispatcher; its
//! `inject` operation resolves a node id to a constructed value, recursing
//! into argument nodes in declared order, caching the result when the node's
//! policy asks for it, and reporting a circular-dependency error (instead of
//! failing to terminate) when a resolution chain re-enters a node whose
//! construction is already underway.

use crate::graph::Ctor;
use crate::graph::CtorCall;
use crate::graph::Graph;
use crate::graph::Node;
use crate::graph::NodeKind;
use crate::slot::at_rest;
use crate::slot::slots_wf;
use crate::slot::Slot;
use vstd::pervasive::cloned;
use vstd::pervasive::VecAdditionalExecFns;
use vstd::prelude::*;
use vstd::seq_lib::*;
use vstd::set_lib::lemma_int_range;
use vstd::set_lib::lemma_len_subset;
use vstd::set_lib::set_int_range;

verus! {

/// Why a resolution failed: either a resolution chain closed a cycle at the
/// named node, or a constructor refused with the given code. Graph-validity
/// problems never appear here: they are rejected when the injector is built.
#[derive(Clone, Copy, PartialEq, Eq, Structural, Debug)]
pub enum InjectError {
    Cycle(usize),
    Ctor(u64),
}

/// The constructor dispatcher accepts every request: resolution never fails
/// for want of a callable constructor, only by the dispatcher's own refusal.
pub open spec fn ctor_total<V, F: Fn(CtorCall, Vec<V>) -> Result<V, u64>>(f: F) -> bool {
    forall|c: CtorCall, av: Vec<V>| #[trigger] call_requires(f, (c, av))
}

/// `out` is a value that constructing `node` from the argument row `av` can
/// produce: for a constant node, a clone of the stored literal; otherwise,
/// an accepted answer of the dispatcher for this node's strategy.
pub open spec fn builds<V: Clone, F: Fn(CtorCall, Vec<V>) -> Result<V, u64>>(
    f: F,
    node: Node<V>,
    av: Vec<V>,
    out: V,
) -> bool {
    match node.ctor {
        Ctor::ConstantExpr(c) => cloned(c, out),
        _ => call_ensures(f, (node.call_tag(), av), Ok(out)),
    }
}

/// The argument row handed to node `n`'s constructor matches the declared
/// `args` list positionally: one value per declared id, and wherever the id
/// was already cached in the starting table `s0`, the row holds a clone of
/// that cached value.
pub open spec fn args_wired<V: Clone>(g: Graph<V>, s0: Seq<Slot<V>>, n: int, av: Seq<V>) -> bool {
    &&& av.len() == g.node_at(n).args@.len()
    &&& forall|j: int|
        0 <= j < av.len() && s0[g.node_at(n).args@[j] as int] is Cached ==> cloned(
            s0[g.node_at(n).args@[j] as int]->Cached_0,
            #[trigger] av[j],
        )
}

/// A successful resolution of node `n` that found its slot empty performed a
/// construction: some argument row wired per the declaration and some
/// constructor output `out` exist such that a caching node retains `out` and
/// hands back a clone of it, while a non-caching node leaves its slot empty
/// and hands back `out` itself. The row is wired positionally: position `j`
/// holds a clone of whatever the node declared at position `j` of `args`
/// retains — in the starting table for nodes cached beforehand, and in the
/// final table for every caching argument node — and no successful node is
/// its own argument.
pub open spec fn constructed_here<V: Clone, F: Fn(CtorCall, Vec<V>) -> Result<V, u64>>(
    g: Graph<V>,
    f: F,
    s0: Seq<Slot<V>>,
    s1: Seq<Slot<V>>,
    n: int,
    rv: V,
) -> bool {
    exists|av: Vec<V>, out: V|
        {
            &&& #[trigger] builds(f, g.node_at(n), av, out)
            &&& args_wired(g, s0, n, av@)
            &&& forall|j: int|
                0 <= j < av@.len() ==> ((#[trigger] g.node_at(n).args@[j]) as int != n && (g.node_at(
                    g.node_at(n).args@[j] as int,
                ).caches() ==> s1[g.node_at(n).args@[j] as int] is Cached && cloned(
                    s1[g.node_at(n).args@[j] as int]->Cached_0,
                    av@[j],
                )))
            &&& (g.node_at(n).caches() ==> s1[n] == Slot::Cached(out) && cloned(out, rv))
            &&& (!g.node_at(n).caches() ==> s1[n] is Empty && rv == out)
        }
}

/// The dispatcher admits refusing this request: some node's strategy, on
/// some argument row, may answer with this error code.
pub open spec fn ctor_refused<V, F: Fn(CtorCall, Vec<V>) -> Result<V, u64>>(
    g: Graph<V>,
    f: F,
    code: u64,
) -> bool {
    exists|m: int, av: Vec<V>|
        0 <= m < g.node_len() && !(g.node_at(m).ctor is ConstantExpr) && #[trigger] call_ensures(
            f,
            (g.node_at(m).call_tag(), av),
            Err(code),
        )
}

/// Every answer the dispatcher can give to `c` on an empty argument row is a
/// success: the shape of a strategy that cannot fail.
pub open spec fn ok_on_empty_args<V, F: Fn(CtorCall, Vec<V>) -> Result<V, u64>>(
    f: F,
    c: CtorCall,
) -> bool {
    forall|av: Vec<V>, out: Result<V, u64>|
        av@.len() == 0 && #[trigger] call_ensures(f, (c, av), out) ==> out is Ok
}

proof fn lemma_push_contains(s: Seq<int>, x: int, y: int)
    ensures
        s.push(x).contains(y) <==> (s.contains(y) || y == x),
{
    if s.contains(y) {
        let i = choose|i: int| 0 <= i < s.len() && s[i] == y;
        assert(s.push(x)[i] == y);
    }
    if y == x {
        assert(s.push(x)[s.len() as int] == y);
    }
    if s.push(x).contains(y) {
        let i = choose|i: int| 0 <= i < s.push(x).len() && s.push(x)[i] == y;
        if i < s.len() {
            assert(s[i] == y);
        }
    }
}

proof fn lemma_push_no_dup(s: Seq<int>, x: int)
    requires
        s.no_duplicates(),
        !s.contains(x),
    ensures
        s.push(x).no_duplicates(),
{
    assert forall|i: int, j: int|
        0 <= i < s.push(x).len() && 0 <= j < s.push(x).len() && i != j implies s.push(x)[i]
        != s.push(x)[j] by {
        if i < s.len() && j < s.len() {
        } else if i < s.len() {
            assert(s[i] != x);
        } else {
            assert(s[j] != x);
        }
    }
}

/// A duplicate-free chain of node ids drawn from a graph of `n` nodes is
/// no longer than the graph: the measure that bounds the recursion depth.
proof fn lemma_chain_len_bound(c: Seq<int>, n: int)
    requires
        0 <= n,
        c.no_duplicates(),
        forall|i: int| 0 <= i < c.len() ==> 0 <= #[trigger] c[i] < n,
    ensures
        c.len() <= n,
{
    broadcast use vstd::set::group_set_axioms, vstd::seq_lib::seq_to_set_is_finite;

    c.unique_seq_to_set();
    let r = set_int_range(0, n);
    lemma_int_range(0, n);
    assert forall|x: int| c.to_set().contains(x) implies r.contains(x) by {
        assert(c.contains(x));
        let i = choose|i: int| 0 <= i < c.len() && c[i] == x;
        assert(0 <= c[i] < n);
    }
    assert(c.to_set().subset_of(r));
    lemma_len_subset(c.to_set(), r);
}

/// Resolve node `n` against the table `slots`, recursing into argument nodes.
/// The ghost `chain` lists the nodes whose construction is underway on this
/// resolution chain, in order: exactly the slots marked `InProgress`, forming
/// an argument path whose last node (if any) names `n` among its arguments.
fn resolve<V: Clone, F: Fn(CtorCall, Vec<V>) -> Result<V, u64>>(
    g: &Graph<V>,
    slots: &mut Vec<Slot<V>>,
    n: usize,
    f: &F,
    chain: Ghost<Seq<int>>,
) -> (r: Result<V, InjectError>)
    requires
        g.wf(),
        slots_wf(*g, old(slots)@),
        n < g.node_len(),
        ctor_total::<V, F>(*f),
        chain@.no_duplicates(),
        forall|i: int| 0 <= i < chain@.len() ==> 0 <= #[trigger] chain@[i] < g.node_len(),
        forall|m: int|
            0 <= m < old(slots)@.len() ==> ((#[trigger] old(slots)@[m]) is InProgress
                <==> chain@.contains(m)),
        g.is_args_path(chain@),
        chain@.len() > 0 ==> g.edge(chain@[chain@.len() - 1], n as int),
    ensures
        final(slots)@.len() == old(slots)@.len(),
        slots_wf(*g, final(slots)@),
        forall|m: int|
            0 <= m < final(slots)@.len() && (#[trigger] old(slots)@[m]) is InProgress
                ==> final(slots)@[m] == old(slots)@[m],
        forall|m: int|
            0 <= m < final(slots)@.len() && (#[trigger] old(slots)@[m]) is Cached
                ==> final(slots)@[m] == old(slots)@[m],
        forall|m: int|
            0 <= m < final(slots)@.len() ==> ((#[trigger] final(slots)@[m]) is InProgress
                <==> old(slots)@[m] is InProgress),
        old(slots)@[n as int] is InProgress ==> r == Result::<V, InjectError>::Err(
            InjectError::Cycle(n),
        ) && final(slots)@ == old(slots)@,
        old(slots)@[n as int] is Cached ==> final(slots)@ == old(slots)@ && r is Ok && cloned(
            old(slots)@[n as int]->Cached_0,
            r->Ok_0,
        ),
        r is Err ==> final(slots)@[n as int] == old(slots)@[n as int],
        r matches Err(InjectError::Cycle(m)) ==> g.has_cycle_at(m as int),
        r matches Err(InjectError::Ctor(code)) ==> ctor_refused(*g, *f, code),
        old(slots)@[n as int] is Empty && r is Ok ==> constructed_here(
            *g,
            *f,
            old(slots)@,
            final(slots)@,
            n as int,
            r->Ok_0,
        ),
        old(slots)@[n as int] is Empty && g.node_at(n as int).args@.len() == 0 && (g.node_at(
            n as int,
        ).ctor is ConstantExpr || ok_on_empty_args::<V, F>(*f, g.node_at(n as int).call_tag()))
            ==> r is Ok,
        old(slots)@[n as int] is Empty && g.node_at(n as int).args@.len() > 0 && g.node_at(
            n as int,
        ).args@[0] as int == n as int ==> r == Result::<V, InjectError>::Err(InjectError::Cycle(n)),
        old(slots)@[n as int] is Empty && g.node_at(n as int).args@.contains(n) ==> r is Err,
    decreases g.node_len() - chain@.len(),
{
    match &slots[n] {
        Slot::Cached(v) => {
            return Ok(v.clone());
        },
        Slot::InProgress => {
            proof {
                assert(chain@.contains(n as int));
                let i = choose|i: int| 0 <= i < chain@.len() && chain@[i] == n as int;
                let p = chain@.subrange(i, chain@.len() as int).push(n as int);
                assert(p.len() == chain@.len() - i + 1);
                assert(p[0] == n as int);
                assert(p[p.len() - 1] == n as int);
                assert forall|k: int| 0 <= k < p.len() - 1 implies g.edge(#[trigger] p[k], p[k + 1]) by {
                    if k < p.len() - 2 {
                        assert(p[k] == chain@[i + k]);
                        assert(p[k + 1] == chain@[i + k + 1]);
                        assert(g.edge(chain@[i + k], chain@[i + k + 1]));
                    } else {
                        assert(p[k] == chain@[chain@.len() - 1]);
                        assert(p[k + 1] == n as int);
                        assert(g.edge(chain@[chain@.len() - 1], n as int));
                    }
                }
                assert(g.is_args_path(p));
                assert(p.len() >= 2);
                assert(g.has_cycle_at(n as int));
            }
            return Err(InjectError::Cycle(n));
        },
        Slot::Empty => {},
    }
    slots.set(n, Slot::InProgress);
    let ghost chain2 = chain@.push(n as int);
    proof {
        assert(!chain@.contains(n as int));
        lemma_push_no_dup(chain@, n as int);
        assert forall|m: int| 0 <= m < slots@.len() implies ((#[trigger] slots@[m]) is InProgress
            <==> chain2.contains(m)) by {
            lemma_push_contains(chain@, n as int, m);
        }
        lemma_chain_len_bound(chain2, g.node_len() as int);
    }
    let node_args_len = g.nodes[n].args.len();
    let mut argv: Vec<V> = Vec::new();
    let mut i: usize = 0;
    while i < node_args_len
        invariant
            g.wf(),
            n < g.node_len(),
            ctor_total::<V, F>(*f),
            node_args_len == g.node_at(n as int).args@.len(),
            0 <= i <= node_args_len,
            argv@.len() == i,
            old(slots)@[n as int] is Empty,
            forall|m: int|
                0 <= m < old(slots)@.len() ==> ((#[trigger] old(slots)@[m]) is InProgress
                    <==> chain@.contains(m)),
            !chain@.contains(n as int),
            chain@.no_duplicates(),
            chain2 == chain@.push(n as int),
            chain2.len() <= g.node_len(),
            chain2.no_duplicates(),
            forall|k: int| 0 <= k < chain2.len() ==> 0 <= #[trigger] chain2[k] < g.node_len(),
            g.is_args_path(chain2),
            slots@.len() == old(slots)@.len(),
            slots_wf(*g, slots@),
            forall|m: int|
                0 <= m < slots@.len() && (#[trigger] old(slots)@[m]) is Cached ==> slots@[m] == old(
                    slots,
                )@[m],
            forall|m: int|
                0 <= m < slots@.len() && (#[trigger] old(slots)@[m]) is InProgress ==> slots@[m]
                    == old(slots)@[m],
            forall|m: int|
                0 <= m < slots@.len() ==> ((#[trigger] slots@[m]) is InProgress <==> chain2.contains(
                    m,
                )),
            slots@[n as int] is InProgress,
            node_args_len > 0 && g.node_at(n as int).args@[0] as int == n as int ==> i == 0,
            forall|j: int|
                0 <= j < i && old(slots)@[g.node_at(n as int).args@[j] as int] is Cached ==> cloned(
                    old(slots)@[g.node_at(n as int).args@[j] as int]->Cached_0,
                    #[trigger] argv@[j],
                ),
            forall|j: int|
                0 <= j < i ==> ((#[trigger] g.node_at(n as int).args@[j]) as int != n as int && (
                g.node_at(
                    g.node_at(n as int).args@[j] as int,
                ).caches() ==> slots@[g.node_at(n as int).args@[j] as int] is Cached && cloned(
                    slots@[g.node_at(n as int).args@[j] as int]->Cached_0,
                    argv@[j],
                ))),
        decreases node_args_len - i,
    {
        let a = g.nodes[n].args[i];
        proof {
            assert(g.node_at(n as int).args@[i as int] == a);
            assert(g.edge(n as int, a as int));
            assert(chain2[chain2.len() - 1] == n as int);
        }
        let sub = resolve(g, slots, a, f, Ghost(chain2));
        match sub {
            Ok(v) => {
                argv.push(v);
            },
            Err(e) => {
                slots.set(n, Slot::Empty);
                proof {
                    assert forall|m: int|
                        0 <= m < slots@.len() implies ((#[trigger] slots@[m]) is InProgress
                        <==> old(slots)@[m] is InProgress) by {
                        lemma_push_contains(chain@, n as int, m);
                    }
                }
                return Err(e);
            },
        }
        i += 1;
    }
    let ghost row = argv;
    let built: Result<V, u64> = match &g.nodes[n].ctor {
        Ctor::ConstantExpr(c) => Ok(c.clone()),
        Ctor::DefaultCtor => f(CtorCall::CallDefault, argv),
        Ctor::NamedFactory(code) => f(CtorCall::CallFactory(*code), argv),
        Ctor::Closure(code) => f(CtorCall::CallClosure(*code), argv),
    };
    proof {
        assert forall|m: int| 0 <= m < slots@.len() implies ((#[trigger] slots@[m]) is InProgress
            <==> (old(slots)@[m] is InProgress || m == n as int)) by {
            lemma_push_contains(chain@, n as int, m);
        }
    }
    let caching = match (&g.nodes[n].kind, g.nodes[n].singleton) {
        (NodeKind::Constant, _) => true,
        (NodeKind::Service, s) => s,
    };
    match built {
        Ok(v) => {
            if caching {
                let ret = v.clone();
                slots.set(n, Slot::Cached(v));
                proof {
                    assert(builds(*f, g.node_at(n as int), row, slots@[n as int]->Cached_0));
                }
                Ok(ret)
            } else {
                slots.set(n, Slot::Empty);
                proof {
                    assert(builds(*f, g.node_at(n as int), row, v));
                }
                Ok(v)
            }
        },
        Err(code) => {
            slots.set(n, Slot::Empty);
            proof {
                assert(!(g.node_at(n as int).ctor is ConstantExpr));
                assert(call_ensures(*f, (g.node_at(n as int).call_tag(), row), Err(code)));
                assert(ctor_refused(*g, *f, code));
            }
            Err(InjectError::Ctor(code))
        },
    }
}

/// The user-facing container: the validated graph, one slot per node, and
/// the constructor dispatcher, fixed when the injector is built.
#[verifier::reject_recursive_types(V)]
pub struct Injector<V, F> where F: Fn(CtorCall, Vec<V>) -> Result<V, u64> {
    pub graph: Graph<V>,
    pub slots: Vec<Slot<V>>,
    pub ctor: F,
}

impl<V: Clone, F: Fn(CtorCall, Vec<V>) -> Result<V, u64>> Injector<V, F> {
    /// Between resolutions the injector is consistent: the graph is valid,
    /// the table has one slot per node, only caching nodes hold retained
    /// values, no construction is underway, and the dispatcher is total.
    pub open spec fn wf(self) -> bool {
        &&& self.graph.wf()
        &&& slots_wf(self.graph, self.slots@)
        &&& at_rest(self.slots@)
        &&& ctor_total::<V, F>(self.ctor)
    }

    /// Build an injector over `graph`, validating the description: the
    /// injector exists exactly when every argument id names a node, constant
    /// nodes are the ones with a constant expression, and the zero-argument
    /// strategies declare no arguments. Every slot starts empty.
    pub fn new(graph: Graph<V>, ctor: F) -> (r: Option<Injector<V, F>>)
        requires
            ctor_total::<V, F>(ctor),
        ensures
            r is Some <==> graph.wf(),
            r matches Some(inj) ==> inj.wf() && inj.graph == graph && inj.ctor == ctor
                && inj.slots@.len() == graph.node_len() && forall|m: int|
                0 <= m < inj.slots@.len() ==> (#[trigger] inj.slots@[m]) is Empty,
    {
        if !graph_ok(&graph) {
            return None;
        }
        let n = graph.nodes.len();
        let mut slots: Vec<Slot<V>> = Vec::new();
        let mut m: usize = 0;
        while m < n
            invariant
                0 <= m <= n,
                slots@.len() == m,
                forall|k: int| 0 <= k < m ==> (#[trigger] slots@[k]) is Empty,
            decreases n - m,
        {
            slots.push(Slot::Empty);
            m += 1;
        }
        Some(Injector { graph, slots, ctor })
    }

    /// The number of declared nodes; valid ids are exactly those below it.
    pub fn node_count(&self) -> (c: usize)
        ensures
            c == self.graph.node_len(),
    {
        self.graph.nodes.len()
    }

    /// Resolve node `n` to a value.
    ///
    /// The contract carries the engine's guarantees. A node whose slot is
    /// already cached is answered with a clone of the retained value and no
    /// state changes: together with the caching clause below, two
    /// resolutions of a singleton node perform exactly one construction.
    /// Cached values, once stored, never change. A successful resolution of
    /// an empty slot performed a construction wired per the declared
    /// argument order (`constructed_here`); a node that does not cache
    /// leaves its slot empty again, so every call constructs afresh. A
    /// circular-dependency error names a node that genuinely lies on a
    /// cycle of the graph, a constructor error carries a refusal the
    /// dispatcher admits, and any error leaves the node's slot as it was,
    /// so a later call may retry. A node with no arguments whose strategy
    /// cannot fail — a constant, or one whose dispatcher never refuses the
    /// empty argument row — resolves successfully, and a node whose first
    /// declared argument is the node itself fails with the cycle error
    /// naming it.
    pub fn inject(&mut self, n: usize) -> (r: Result<V, InjectError>)
        requires
            old(self).wf(),
            n < old(self).graph.node_len(),
        ensures
            final(self).wf(),
            final(self).graph == old(self).graph,
            final(self).ctor == old(self).ctor,
            final(self).slots@.len() == old(self).slots@.len(),
            forall|m: int|
                0 <= m < old(self).slots@.len() && (#[trigger] old(self).slots@[m]) is Cached
                    ==> final(self).slots@[m] == old(self).slots@[m],
            old(self).slots@[n as int] is Cached ==> final(self).slots@ == old(self).slots@
                && r is Ok && cloned(old(self).slots@[n as int]->Cached_0, r->Ok_0),
            r matches Err(InjectError::Cycle(m)) ==> old(self).graph.has_cycle_at(m as int),
            r matches Err(InjectError::Ctor(code)) ==> ctor_refused(
                old(self).graph,
                old(self).ctor,
                code,
            ),
            r is Err ==> final(self).slots@[n as int] == old(self).slots@[n as int],
            old(self).slots@[n as int] is Empty && r is Ok ==> constructed_here(
                old(self).graph,
                old(self).ctor,
                old(self).slots@,
                final(self).slots@,
                n as int,
                r->Ok_0,
            ),
            old(self).slots@[n as int] is Empty && old(self).graph.node_at(
                n as int,
            ).args@.len() == 0 && (old(self).graph.node_at(n as int).ctor is ConstantExpr
                || ok_on_empty_args::<V, F>(
                old(self).ctor,
                old(self).graph.node_at(n as int).call_tag(),
            )) ==> r is Ok,
            old(self).slots@[n as int] is Empty && old(self).graph.node_at(
                n as int,
            ).args@.len() > 0 && old(self).graph.node_at(n as int).args@[0] as int == n as int
                ==> r == Result::<V, InjectError>::Err(InjectError::Cycle(n)),
            old(self).slots@[n as int] is Empty && old(self).graph.node_at(n as int).args@.contains(
                n,
            ) ==> r is Err,
    {
        let ghost empty_chain: Seq<int> = Seq::empty();
        resolve(&self.graph, &mut self.slots, n, &self.ctor, Ghost(empty_chain))
    }
}

/// Check a graph description for validity: every declared argument id
/// resolves to an existing node, constant nodes are exactly those built
/// from a constant expression, and the zero-argument strategies take no
/// arguments.
fn graph_ok<V>(g: &Graph<V>) -> (b: bool)
    ensures
        b == g.wf(),
{
    let n = g.nodes.len();
    let mut m: usize = 0;
    while m < n
        invariant
            n == g.node_len(),
            0 <= m <= n,
            forall|k: int| 0 <= k < m ==> (#[trigger] g.nodes@[k]).wf(g.node_len()),
        decreases n - m,
    {
        let alen = g.nodes[m].args.len();
        let mut i: usize = 0;
        while i < alen
            invariant
                n == g.node_len(),
                m < n,
                alen == g.nodes@[m as int].args@.len(),
                0 <= i <= alen,
                forall|k: int| 0 <= k < i ==> (#[trigger] g.nodes@[m as int].args@[k]) < n,
            decreases alen - i,
        {
            if g.nodes[m].args[i] >= n {
                return false;
            }
            i += 1;
        }
        let is_const_kind = match &g.nodes[m].kind {
            NodeKind::Constant => true,
            NodeKind::Service => false,
        };
        let is_const_expr = match &g.nodes[m].ctor {
            Ctor::ConstantExpr(_) => true,
            _ => false,
        };
        let zero_arg = match &g.nodes[m].ctor {
            Ctor::ConstantExpr(_) => true,
            Ctor::DefaultCtor => true,
            _ => false,
        };
        if is_const_kind != is_const_expr {
            return false;
        }
        if zero_arg && alen != 0 {
            return false;
        }
        proof {
            assert(g.nodes@[m as int].wf(g.node_len()));
        }
        m += 1;
    }
    true
}

} // verus!
