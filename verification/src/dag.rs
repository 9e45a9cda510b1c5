//! Type dependency graph: nodes for user-defined types, context-tagged edges
//! for the references between them, and insertion-time cycle detection. The
//! graph stays acyclic at all times: an edge that would close a directed
//! cycle is refused.

use vstd::prelude::*;
use crate::symbol::{spec_resolve, SymbolPathNamespace, SymbolTable};
use crate::token::Token;

verus! {

/// The syntactic context a reference edge was created in.
#[derive(Clone, Copy, Debug, PartialEq, Eq, Structural)]
pub enum Context {
    Struct,
    Union,
    Enum,
    Modport,
    Module,
    Interface,
    Package,
    ExpressionIdentifier,
}

/// A node: the symbol it stands for (an index into the symbol table), the
/// rendered name and the token it was first inserted with.
pub struct DagNode {
    pub sym: usize,
    pub name: String,
    pub token: Token,
}

#[derive(Debug)]
pub enum DagError {
    /// The edge would close a directed cycle; carries the tokens of the edge's
    /// source and destination nodes.
    Cyclic(Token, Token),
    /// The path could not be resolved in the symbol table.
    UnableToResolve { name: String, token: Token },
}

pub type Edge = (usize, usize, Context);

/// Some stored edge goes from `a` to `b`.
pub open spec fn has_edge(es: Seq<Edge>, a: usize, b: usize) -> bool {
    exists|k: int| 0 <= k < es.len() && es[k].0 == a && es[k].1 == b
}

/// `p` lists at least one node and every consecutive pair is an edge.
pub open spec fn is_path(es: Seq<Edge>, p: Seq<usize>) -> bool {
    p.len() >= 1 && forall|i: int| #![trigger p[i]] 0 <= i < p.len() - 1 ==> has_edge(es, p[i], p[i + 1])
}

/// `b` is reachable from `a` by zero or more edges.
pub open spec fn reaches(es: Seq<Edge>, a: usize, b: usize) -> bool {
    exists|p: Seq<usize>| is_path(es, p) && p.first() == a && p.last() == b
}

/// `b` is reachable from `a` by at least one edge.
pub open spec fn reaches_plus(es: Seq<Edge>, a: usize, b: usize) -> bool {
    exists|p: Seq<usize>| is_path(es, p) && p.len() >= 2 && p.first() == a && p.last() == b
}

/// No node lies on a directed cycle.
pub open spec fn acyclic(es: Seq<Edge>) -> bool {
    forall|a: usize| !reaches_plus(es, a, a)
}

pub proof fn lemma_reach_refl(es: Seq<Edge>, a: usize)
    ensures
        reaches(es, a, a),
{
    let p = seq![a];
    assert(is_path(es, p));
    assert(p.first() == a && p.last() == a);
}

pub proof fn lemma_reach_step(es: Seq<Edge>, a: usize, x: usize, b: usize)
    requires
        reaches(es, a, x),
        has_edge(es, x, b),
    ensures
        reaches(es, a, b),
        reaches_plus(es, a, b),
{
    let p = choose|p: Seq<usize>| is_path(es, p) && p.first() == a && p.last() == x;
    let q = p.push(b);
    assert forall|i: int| #![trigger q[i]] 0 <= i < q.len() - 1 implies has_edge(es, q[i], q[i + 1]) by {
        if i < p.len() - 1 {
            assert(q[i] == p[i] && q[i + 1] == p[i + 1]);
        } else {
            assert(q[i] == p[p.len() - 1] && q[i + 1] == b);
        }
    }
    assert(is_path(es, q));
    assert(q.first() == a && q.last() == b && q.len() >= 2);
}

pub proof fn lemma_reach_front(es: Seq<Edge>, a: usize, x: usize, b: usize)
    requires
        has_edge(es, a, x),
        reaches(es, x, b),
    ensures
        reaches_plus(es, a, b),
{
    let p = choose|p: Seq<usize>| is_path(es, p) && p.first() == x && p.last() == b;
    let q = seq![a] + p;
    assert forall|i: int| #![trigger q[i]] 0 <= i < q.len() - 1 implies has_edge(es, q[i], q[i + 1]) by {
        if i == 0 {
            assert(q[0] == a && q[1] == p[0]);
        } else {
            assert(q[i] == p[i - 1] && q[i + 1] == p[i]);
        }
    }
    assert(is_path(es, q));
    assert(q.first() == a && q.last() == b && q.len() >= 2);
}

pub proof fn lemma_reach_trans(es: Seq<Edge>, a: usize, x: usize, b: usize)
    requires
        reaches(es, a, x),
        reaches(es, x, b),
    ensures
        reaches(es, a, b),
{
    let p = choose|p: Seq<usize>| is_path(es, p) && p.first() == a && p.last() == x;
    let q = choose|q: Seq<usize>| is_path(es, q) && q.first() == x && q.last() == b;
    let r = p + q.drop_first();
    assert(r.len() == p.len() + q.len() - 1);
    if q.len() == 1 {
        assert(r =~= p);
        assert(is_path(es, r) && r.first() == a && r.last() == b);
    } else {
        assert forall|i: int| #![trigger r[i]] 0 <= i < r.len() - 1 implies has_edge(es, r[i], r[i + 1]) by {
            if i < p.len() - 1 {
                assert(r[i] == p[i] && r[i + 1] == p[i + 1]);
            } else if i == p.len() - 1 {
                assert(r[i] == p[p.len() - 1]);
                assert(r[i + 1] == q.drop_first()[0]);
                assert(q.drop_first()[0] == q[1]);
                assert(p[p.len() - 1] == q[0]);
                assert(has_edge(es, q[0], q[1]));
            } else {
                let j = i - p.len();
                assert(r[i] == q.drop_first()[j]);
                assert(r[i + 1] == q.drop_first()[j + 1]);
                assert(q.drop_first()[j] == q[j + 1]);
                assert(q.drop_first()[j + 1] == q[j + 2]);
                assert(has_edge(es, q[j + 1], q[j + 2]));
            }
        }
        assert(is_path(es, r));
        assert(r.first() == a && r.last() == b);
    }
}

/// Any nonempty-edge path of the graph extended with edge `(s, d)` either
/// existed already or crosses the new edge: then its start reaches `s` and
/// `d` reaches its end, both in the old graph.
proof fn lemma_path_push_split(es: Seq<Edge>, s: usize, d: usize, c: Context, p: Seq<usize>)
    requires
        is_path(es.push((s, d, c)), p),
        p.len() >= 2,
    ensures
        reaches_plus(es, p.first(), p.last()) || (reaches(es, p.first(), s) && reaches(
            es,
            d,
            p.last(),
        )),
    decreases p.len(),
{
    let es2 = es.push((s, d, c));
    let first_old = has_edge(es, p[0], p[1]);
    if !first_old {
        // the first step must be the new edge
        assert(has_edge(es2, p[0], p[1]));
        let k = choose|k: int| 0 <= k < es2.len() && es2[k].0 == p[0] && es2[k].1 == p[1];
        assert(k == es.len()) by {
            if k < es.len() {
                assert(es[k] == es2[k]);
            }
        }
        assert(p[0] == s && p[1] == d);
    }
    if p.len() == 2 {
        if first_old {
            lemma_reach_refl(es, p[0]);
            lemma_reach_step(es, p[0], p[0], p[1]);
        } else {
            lemma_reach_refl(es, s);
            lemma_reach_refl(es, d);
        }
    } else {
        let q = p.drop_first();
        assert forall|i: int| #![trigger q[i]] 0 <= i < q.len() - 1 implies has_edge(es2, q[i], q[i + 1]) by {
            assert(q[i] == p[i + 1] && q[i + 1] == p[i + 2]);
        }
        assert(is_path(es2, q));
        lemma_path_push_split(es, s, d, c, q);
        assert(q.first() == p[1] && q.last() == p.last());
        if first_old {
            lemma_reach_refl(es, p[0]);
            if reaches_plus(es, p[1], p.last()) {
                let r = choose|r: Seq<usize>|
                    is_path(es, r) && r.len() >= 2 && r.first() == p[1] && r.last() == p.last();
                assert(reaches(es, p[1], p.last()));
                lemma_reach_front(es, p[0], p[1], p.last());
            } else {
                lemma_reach_front(es, p[0], p[1], s);
                assert(reaches(es, p.first(), s));
            }
        } else {
            // p[0] == s, p[1] == d
            lemma_reach_refl(es, s);
            if reaches_plus(es, d, p.last()) {
                assert(reaches(es, d, p.last()));
            } else {
                assert(reaches(es, d, p.last()));
            }
        }
    }
}

/// Adding an edge whose destination does not already reach its source keeps
/// the graph acyclic.
proof fn lemma_acyclic_push(es: Seq<Edge>, s: usize, d: usize, c: Context)
    requires
        acyclic(es),
        s != d,
        !reaches(es, d, s),
    ensures
        acyclic(es.push((s, d, c))),
{
    let es2 = es.push((s, d, c));
    assert forall|a: usize| !reaches_plus(es2, a, a) by {
        if reaches_plus(es2, a, a) {
            let p = choose|p: Seq<usize>|
                is_path(es2, p) && p.len() >= 2 && p.first() == a && p.last() == a;
            lemma_path_push_split(es, s, d, c, p);
            if reaches_plus(es, a, a) {
                assert(false);
            } else {
                lemma_reach_trans(es, d, a, s);
                assert(false);
            }
        }
    }
}

/// A graph whose every edge is an edge of an acyclic graph is acyclic.
proof fn lemma_acyclic_subset(sub: Seq<Edge>, sup: Seq<Edge>)
    requires
        acyclic(sup),
        forall|k: int| 0 <= k < sub.len() ==> #[trigger] sup.contains(sub[k]),
    ensures
        acyclic(sub),
{
    assert forall|a: usize| !reaches_plus(sub, a, a) by {
        if reaches_plus(sub, a, a) {
            let p = choose|p: Seq<usize>|
                is_path(sub, p) && p.len() >= 2 && p.first() == a && p.last() == a;
            assert forall|i: int| #![trigger p[i]] 0 <= i < p.len() - 1 implies has_edge(sup, p[i], p[i + 1]) by {
                let k = choose|k: int|
                    0 <= k < sub.len() && sub[k].0 == p[i] && sub[k].1 == p[i + 1];
                assert(sup.contains(sub[k]));
                let k2 = choose|k2: int| 0 <= k2 < sup.len() && sup[k2] == sub[k];
            }
            assert(is_path(sup, p));
            assert(reaches_plus(sup, a, a));
            assert(false);
        }
    }
}

/// How many entries of `s` are true.
pub closed spec fn num_true(s: Seq<bool>) -> int
    decreases s.len(),
{
    if s.len() == 0 {
        0
    } else {
        num_true(s.drop_last()) + if s.last() {
            1int
        } else {
            0int
        }
    }
}

proof fn lemma_num_true_bounds(s: Seq<bool>)
    ensures
        0 <= num_true(s) <= s.len(),
    decreases s.len(),
{
    if s.len() > 0 {
        lemma_num_true_bounds(s.drop_last());
    }
}

proof fn lemma_num_true_update(s: Seq<bool>, i: int)
    requires
        0 <= i < s.len(),
        !s[i],
    ensures
        num_true(s.update(i, true)) == num_true(s) + 1,
    decreases s.len(),
{
    let s2 = s.update(i, true);
    if i == s.len() - 1 {
        assert(s2.drop_last() =~= s.drop_last());
        assert(s2.last() && !s.last());
    } else {
        assert(s2.drop_last() =~= s.drop_last().update(i, true));
        assert(s2.last() == s.last());
        lemma_num_true_update(s.drop_last(), i);
    }
}

/// The index of the first node standing for symbol `sym`, if any.
pub open spec fn find_node(nodes: Seq<DagNode>, sym: int) -> Option<int>
    decreases nodes.len(),
{
    if nodes.len() == 0 {
        Option::None
    } else if nodes[0].sym == sym {
        Option::Some(0)
    } else {
        match find_node(nodes.drop_first(), sym) {
            Option::Some(i) => Option::Some(i + 1),
            Option::None => Option::None,
        }
    }
}

proof fn lemma_find_node_first(nodes: Seq<DagNode>, sym: int, i: int)
    requires
        0 <= i < nodes.len(),
        nodes[i].sym == sym,
        forall|j: int| 0 <= j < i ==> nodes[j].sym != sym,
    ensures
        find_node(nodes, sym) == Option::Some(i),
    decreases nodes.len(),
{
    if i > 0 {
        lemma_find_node_first(nodes.drop_first(), sym, i - 1);
    }
}

proof fn lemma_find_node_none(nodes: Seq<DagNode>, sym: int)
    requires
        forall|j: int| 0 <= j < nodes.len() ==> nodes[j].sym != sym,
    ensures
        find_node(nodes, sym) is None,
    decreases nodes.len(),
{
    if nodes.len() > 0 {
        lemma_find_node_none(nodes.drop_first(), sym);
    }
}

/// What registering a node for symbol `si` does: the node set afterwards and
/// the id handed out.
pub open spec fn spec_insert_node(nodes: Seq<DagNode>, si: usize, name: String, token: Token) -> (
    Seq<DagNode>,
    int,
) {
    match find_node(nodes, si as int) {
        Option::Some(i) => (nodes, i),
        Option::None => (nodes.push(DagNode { sym: si, name, token }), nodes.len() as int),
    }
}

proof fn lemma_find_node_props(nodes: Seq<DagNode>, sym: int)
    ensures
        match find_node(nodes, sym) {
            Option::Some(i) => 0 <= i < nodes.len() && nodes[i].sym == sym && forall|j: int|
                0 <= j < i ==> nodes[j].sym != sym,
            Option::None => forall|j: int| 0 <= j < nodes.len() ==> nodes[j].sym != sym,
        },
    decreases nodes.len(),
{
    if nodes.len() > 0 {
        lemma_find_node_props(nodes.drop_first(), sym);
        assert forall|j: int| 1 <= j < nodes.len() implies nodes.drop_first()[j - 1] == nodes[j]
            by {}
    }
}

/// Registering the same symbol twice hands out the same node id, and the
/// second registration changes nothing.
pub proof fn lemma_insert_node_idempotent(
    nodes: Seq<DagNode>,
    si: usize,
    name: String,
    token: Token,
)
    ensures
        ({
            let first = spec_insert_node(nodes, si, name, token);
            let second = spec_insert_node(first.0, si, name, token);
            second.1 == first.1 && second.0 == first.0
        }),
{
    lemma_find_node_props(nodes, si as int);
    let first = spec_insert_node(nodes, si, name, token);
    match find_node(nodes, si as int) {
        Option::Some(i) => {
            lemma_find_node_props(first.0, si as int);
        },
        Option::None => {
            lemma_find_node_first(first.0, si as int, nodes.len() as int);
        },
    }
}

/// After the ownership discipline ran for `(p, c)` - every reference edge
/// from `c` to `p` removed, then the ownership edge from `p` to `c` added -
/// exactly one direction is connected: the ownership edge wins.
pub proof fn lemma_ownership_edge_wins(es2: Seq<Edge>, p: usize, c: usize, ctx: Context)
    requires
        p != c,
        !has_edge(es2, c, p),
    ensures
        ({
            let es3 = es2.push((p, c, ctx));
            has_edge(es3, p, c) && !has_edge(es3, c, p)
        }),
{
    let es3 = es2.push((p, c, ctx));
    assert(es3[es3.len() - 1].0 == p && es3[es3.len() - 1].1 == c);
    assert(has_edge(es3, p, c));
    if has_edge(es3, c, p) {
        let k = choose|k: int| 0 <= k < es3.len() && es3[k].0 == c && es3[k].1 == p;
        if k < es2.len() {
            assert(es2[k] == es3[k]);
            assert(has_edge(es2, c, p));
        }
        assert(false);
    }
}

/// The mathematical content of a node: the rendered name as a character
/// sequence.
pub ghost struct DagNodeView {
    pub sym: usize,
    pub name: Seq<char>,
    pub token: Token,
}

pub open spec fn node_view(n: DagNode) -> DagNodeView {
    DagNodeView { sym: n.sym, name: n.name@, token: n.token }
}

pub open spec fn node_views(ns: Seq<DagNode>) -> Seq<DagNodeView> {
    ns.map(|_i: int, n: DagNode| node_view(n))
}

/// `find_node` over node views; the symbol alone decides.
pub open spec fn find_node_v(nodes: Seq<DagNodeView>, sym: int) -> Option<int>
    decreases nodes.len(),
{
    if nodes.len() == 0 {
        Option::None
    } else if nodes[0].sym == sym {
        Option::Some(0)
    } else {
        match find_node_v(nodes.drop_first(), sym) {
            Option::Some(i) => Option::Some(i + 1),
            Option::None => Option::None,
        }
    }
}

/// `spec_insert_node` over node views.
pub open spec fn spec_insert_node_v(
    nodes: Seq<DagNodeView>,
    si: usize,
    name: Seq<char>,
    token: Token,
) -> (Seq<DagNodeView>, int) {
    match find_node_v(nodes, si as int) {
        Option::Some(i) => (nodes, i),
        Option::None => (nodes.push(DagNodeView { sym: si, name, token }), nodes.len() as int),
    }
}

proof fn lemma_find_node_views(nodes: Seq<DagNode>, sym: int)
    ensures
        find_node(nodes, sym) == find_node_v(node_views(nodes), sym),
    decreases nodes.len(),
{
    if nodes.len() > 0 {
        lemma_find_node_views(nodes.drop_first(), sym);
        assert(node_views(nodes.drop_first()) =~= node_views(nodes).drop_first());
    }
}

/// Registering a node commutes with taking views.
pub proof fn lemma_insert_node_view(nodes: Seq<DagNode>, si: usize, name: String, token: Token)
    ensures
        ({
            let v = spec_insert_node(nodes, si, name, token);
            let w = spec_insert_node_v(node_views(nodes), si, name@, token);
            node_views(v.0) == w.0 && v.1 == w.1
        }),
{
    lemma_find_node_views(nodes, si as int);
    match find_node(nodes, si as int) {
        Option::Some(_) => {},
        Option::None => {
            assert(node_views(nodes.push(DagNode { sym: si, name, token })) =~= node_views(
                nodes,
            ).push(DagNodeView { sym: si, name: name@, token }));
        },
    }
}

/// The edge list with every `s -> d` edge removed, order kept.
pub open spec fn remove_pairs(es: Seq<Edge>, s: usize, d: usize) -> Seq<Edge>
    decreases es.len(),
{
    if es.len() == 0 {
        Seq::empty()
    } else {
        let r = remove_pairs(es.drop_last(), s, d);
        if es.last().0 == s && es.last().1 == d {
            r
        } else {
            r.push(es.last())
        }
    }
}

pub struct TypeDag {
    nodes: Vec<DagNode>,
    edges: Vec<Edge>,
}

impl TypeDag {
    pub closed spec fn spec_nodes(&self) -> Seq<DagNode> {
        self.nodes@
    }

    pub closed spec fn spec_edges(&self) -> Seq<Edge> {
        self.edges@
    }

    /// The graph is acyclic, every edge endpoint is a node, and no symbol has
    /// two nodes.
    pub open spec fn wf(&self) -> bool {
        &&& acyclic(self.spec_edges())
        &&& forall|k: int|
            0 <= k < self.spec_edges().len() ==> (#[trigger] self.spec_edges()[k]).0
                < self.spec_nodes().len() && self.spec_edges()[k].1 < self.spec_nodes().len()
        &&& forall|i: int, j: int|
            0 <= i < j < self.spec_nodes().len() ==> self.spec_nodes()[i].sym
                != self.spec_nodes()[j].sym
    }

    pub fn new() -> (t: TypeDag)
        ensures
            t.wf(),
            t.spec_nodes().len() == 0,
            t.spec_edges().len() == 0,
    {
        let t = TypeDag { nodes: Vec::new(), edges: Vec::new() };
        assert forall|a: usize| !reaches_plus(t.spec_edges(), a, a) by {
            if reaches_plus(t.spec_edges(), a, a) {
                let p = choose|p: Seq<usize>|
                    is_path(t.spec_edges(), p) && p.len() >= 2 && p.first() == a && p.last() == a;
                assert(!has_edge(t.spec_edges(), p[0], p[1]));
            }
        }
        t
    }

    pub fn node_count(&self) -> (n: usize)
        ensures
            n == self.spec_nodes().len(),
    {
        self.nodes.len()
    }

    pub fn node_at(&self, i: usize) -> (r: &DagNode)
        requires
            i < self.spec_nodes().len(),
        ensures
            *r == self.spec_nodes()[i as int],
    {
        &self.nodes[i]
    }

    /// Register the type named by `path`: resolve it in the symbol table and
    /// return the id of its node, creating the node on first sight. The same
    /// resolved symbol always yields the same id.
    pub fn insert_node(
        &mut self,
        st: &SymbolTable,
        path: &SymbolPathNamespace,
        name: String,
        token: Token,
    ) -> (r: Result<usize, DagError>)
        requires
            old(self).wf(),
        ensures
            final(self).wf(),
            final(self).spec_edges() == old(self).spec_edges(),
            final(self).spec_nodes().len() >= old(self).spec_nodes().len(),
            r matches Result::Ok(id) ==> id < final(self).spec_nodes().len(),
            match spec_resolve(st@, path.path@, path.namespace@) {
                Option::Some(si) => {
                    let after = spec_insert_node(
                        old(self).spec_nodes(),
                        si as usize,
                        name,
                        token,
                    );
                    r == Result::<usize, DagError>::Ok(after.1 as usize) && final(self).spec_nodes() == after.0
                },
                Option::None => r == Result::<usize, DagError>::Err(
                    DagError::UnableToResolve { name, token },
                ) && final(self).spec_nodes() == old(self).spec_nodes(),
            },
    {
        let si = match st.resolve_index(&path.path, &path.namespace) {
            Option::Some(i) => i,
            Option::None => {
                return Err(DagError::UnableToResolve { name, token });
            },
        };
        let n_nodes = self.nodes.len();
        let mut i: usize = 0;
        while i < n_nodes
            invariant
                self.wf(),
                n_nodes == self.nodes@.len(),
                self.nodes@ == old(self).nodes@,
                self.edges@ == old(self).edges@,
                i <= n_nodes,
                spec_resolve(st@, path.path@, path.namespace@) == Option::Some(si as int),
                forall|j: int| 0 <= j < i ==> self.nodes@[j].sym != si,
            decreases n_nodes - i,
        {
            if self.nodes[i].sym == si {
                proof {
                    lemma_find_node_first(self.nodes@, si as int, i as int);
                }
                return Ok(i);
            }
            i += 1;
        }
        proof {
            lemma_find_node_none(self.nodes@, si as int);
        }
        let ghost pre = self.nodes@;
        self.nodes.push(DagNode { sym: si, name, token });
        proof {
            assert forall|a: int, b: int| 0 <= a < b < self.nodes@.len() implies self.nodes@[a].sym
                != self.nodes@[b].sym by {
                if b < self.nodes@.len() - 1 {
                    assert(self.nodes@[a] == pre[a] && self.nodes@[b] == pre[b]);
                } else {
                    assert(self.nodes@[a] == pre[a]);
                }
            }
        }
        Ok(n_nodes)
    }

    /// Depth-first search: which nodes are reachable from `start`.
    fn reachable_from(&self, start: usize) -> (visited: Vec<bool>)
        requires
            self.wf(),
            start < self.spec_nodes().len(),
        ensures
            visited@.len() == self.spec_nodes().len(),
            forall|x: int|
                0 <= x < visited@.len() ==> (visited@[x] <==> reaches(
                    self.spec_edges(),
                    start,
                    x as usize,
                )),
    {
        let n = self.nodes.len();
        let mut visited: Vec<bool> = Vec::new();
        let mut ii: usize = 0;
        while ii < n
            invariant
                ii <= n,
                visited@.len() == ii,
                forall|j: int| 0 <= j < ii ==> !visited@[j],
            decreases n - ii,
        {
            visited.push(false);
            ii += 1;
        }
        let mut stack: Vec<usize> = Vec::new();
        visited[start] = true;
        stack.push(start);
        proof {
            lemma_reach_refl(self.spec_edges(), start);
            lemma_num_true_bounds(visited@);
            assert forall|k: int|
                0 <= k < self.spec_edges().len() && visited@[(
                #[trigger] self.spec_edges()[k]).0 as int] && !stack@.contains(
                    self.spec_edges()[k].0,
                ) implies visited@[self.spec_edges()[k].1 as int] by {
                let src = self.spec_edges()[k].0;
                assert(src < n);
                if src == start {
                    assert(stack@[0] == start);
                } else {
                    assert(!visited@[src as int]);
                }
            }
        }
        while stack.len() != 0
            invariant
                self.wf(),
                start < n,
                n == self.spec_nodes().len(),
                visited@.len() == n,
                visited@[start as int],
                forall|k: int|
                    0 <= k < stack@.len() ==> (#[trigger] stack@[k]) < n && visited@[stack@[k] as int],
                forall|k1: int, k2: int|
                    0 <= k1 < k2 < stack@.len() ==> stack@[k1] != stack@[k2],
                forall|x: int|
                    0 <= x < n && visited@[x] ==> reaches(self.spec_edges(), start, x as usize),
                forall|k: int|
                    0 <= k < self.spec_edges().len() && visited@[(
                    #[trigger] self.spec_edges()[k]).0 as int] && !stack@.contains(
                        self.spec_edges()[k].0,
                    ) ==> visited@[self.spec_edges()[k].1 as int],
            decreases (n - num_true(visited@)), stack@.len(),
        {
            proof {
                lemma_num_true_bounds(visited@);
            }
            let ghost nt0 = num_true(visited@);
            let ghost stack0 = stack@;
            let x = match stack.pop() {
                Option::Some(v) => v,
                Option::None => {
                    proof {
                        assert(false);
                    }
                    0
                },
            };
            proof {
                assert(stack0 =~= stack@.push(x));
                assert(!stack@.contains(x)) by {
                    if stack@.contains(x) {
                        let w = choose|w: int| 0 <= w < stack@.len() && stack@[w] == x;
                        assert(stack0[w] == stack0[stack0.len() - 1]);
                    }
                }
                assert forall|kk: int|
                    0 <= kk < self.spec_edges().len() && visited@[(
                    #[trigger] self.spec_edges()[kk]).0 as int] && self.spec_edges()[kk].0 != x
                        && !stack@.contains(self.spec_edges()[kk].0) implies visited@[
                    self.spec_edges()[kk].1 as int] by {
                    let y = self.spec_edges()[kk].0;
                    assert(!stack0.contains(y)) by {
                        if stack0.contains(y) {
                            let w = choose|w: int| 0 <= w < stack0.len() && stack0[w] == y;
                            if w < stack0.len() - 1 {
                                assert(stack@[w] == y);
                            }
                        }
                    }
                }
            }
            let m = self.edges.len();
            let mut k: usize = 0;
            while k < m
                invariant
                    self.wf(),
                    start < n,
                    n == self.spec_nodes().len(),
                    m == self.spec_edges().len(),
                    k <= m,
                    visited@.len() == n,
                    visited@[start as int],
                    x < n,
                    visited@[x as int],
                    reaches(self.spec_edges(), start, x as usize),
                    stack@.len() + 1 + nt0 == stack0.len() + num_true(visited@),
                    num_true(visited@) >= nt0,
                    forall|kk: int|
                        0 <= kk < stack@.len() ==> (#[trigger] stack@[kk]) < n
                            && visited@[stack@[kk] as int],
                    forall|k1: int, k2: int|
                        0 <= k1 < k2 < stack@.len() ==> stack@[k1] != stack@[k2],
                    !stack@.contains(x),
                    forall|y: int|
                        0 <= y < n && visited@[y] ==> reaches(self.spec_edges(), start, y as usize),
                    forall|kk: int|
                        0 <= kk < self.spec_edges().len() && visited@[(
                        #[trigger] self.spec_edges()[kk]).0 as int] && self.spec_edges()[kk].0 != x
                            && !stack@.contains(self.spec_edges()[kk].0) ==> visited@[
                            self.spec_edges()[kk].1 as int],
                    forall|kk: int|
                        0 <= kk < k && (#[trigger] self.spec_edges()[kk]).0 == x
                            ==> visited@[self.spec_edges()[kk].1 as int],
                decreases m - k,
            {
                let e = &self.edges[k];
                if e.0 == x {
                    let y = e.1;
                    assert(y < n);
                    if !visited[y] {
                        proof {
                            lemma_num_true_update(visited@, y as int);
                            assert(has_edge(self.spec_edges(), x, y)) by {
                                assert(self.spec_edges()[k as int].0 == x
                                    && self.spec_edges()[k as int].1 == y);
                            }
                            lemma_reach_step(self.spec_edges(), start, x, y);
                        }
                        let ghost vispre = visited@;
                        visited[y] = true;
                        let ghost stackpre = stack@;
                        stack.push(y);
                        proof {
                            assert forall|k1: int, k2: int|
                                0 <= k1 < k2 < stack@.len() implies stack@[k1] != stack@[k2] by {
                                if k2 == stack@.len() - 1 {
                                    assert(stackpre[k1] == stack@[k1]);
                                    assert(vispre[stack@[k1] as int]);
                                } else {
                                    assert(stackpre[k1] == stack@[k1] && stackpre[k2] == stack@[k2]);
                                }
                            }
                            assert(!stack@.contains(x)) by {
                                if stack@.contains(x) {
                                    let w = choose|w: int| 0 <= w < stack@.len() && stack@[w] == x;
                                    if w < stack@.len() - 1 {
                                        assert(stackpre[w] == x);
                                    }
                                }
                            }
                            assert forall|kk: int|
                                0 <= kk < self.spec_edges().len() && visited@[(
                                #[trigger] self.spec_edges()[kk]).0 as int]
                                    && self.spec_edges()[kk].0 != x && !stack@.contains(
                                    self.spec_edges()[kk].0,
                                ) implies visited@[self.spec_edges()[kk].1 as int] by {
                                let src = self.spec_edges()[kk].0;
                                assert(src != y) by {
                                    if src == y {
                                        assert(stack@[stack@.len() - 1] == y);
                                    }
                                }
                                assert(vispre[src as int]);
                                assert(!stackpre.contains(src)) by {
                                    if stackpre.contains(src) {
                                        let w = choose|w: int|
                                            0 <= w < stackpre.len() && stackpre[w] == src;
                                        assert(stack@[w] == src);
                                    }
                                }
                            }
                        }
                    }
                }
                k += 1;
            }
            proof {
                lemma_num_true_bounds(visited@);
                // x is now fully expanded
                assert forall|kk: int|
                    0 <= kk < self.spec_edges().len() && visited@[(
                    #[trigger] self.spec_edges()[kk]).0 as int] && !stack@.contains(
                        self.spec_edges()[kk].0,
                    ) implies visited@[self.spec_edges()[kk].1 as int] by {
                    if self.spec_edges()[kk].0 != x {
                    }
                }
            }
        }
        proof {
            // visited is closed under edges and contains start, so it contains
            // everything reachable from start
            assert forall|xx: int|
                0 <= xx < visited@.len() implies (visited@[xx] <==> reaches(
                    self.spec_edges(),
                    start,
                    xx as usize,
                )) by {
                if reaches(self.spec_edges(), start, xx as usize) {
                    let p = choose|p: Seq<usize>|
                        is_path(self.spec_edges(), p) && p.first() == start && p.last()
                            == xx as usize;
                    lemma_closed_covers_path(self.spec_edges(), visited@, p, n as int);
                }
            }
        }
        visited
    }

    /// Whether an edge from `s` to `d` is recorded.
    pub fn exist_edge(&self, s: usize, d: usize) -> (r: bool)
        ensures
            r == has_edge(self.spec_edges(), s, d),
    {
        let m = self.edges.len();
        let mut k: usize = 0;
        while k < m
            invariant
                m == self.spec_edges().len(),
                k <= m,
                forall|j: int|
                    0 <= j < k ==> !((#[trigger] self.spec_edges()[j]).0 == s
                        && self.spec_edges()[j].1 == d),
            decreases m - k,
        {
            let e = &self.edges[k];
            if e.0 == s && e.1 == d {
                assert(self.spec_edges()[k as int].0 == s && self.spec_edges()[k as int].1 == d);
                return true;
            }
            k += 1;
        }
        false
    }

    /// Remove every edge from `s` to `d`; all other edges stay.
    pub fn remove_edge(&mut self, s: usize, d: usize)
        requires
            old(self).wf(),
        ensures
            final(self).wf(),
            final(self).spec_nodes() == old(self).spec_nodes(),
            final(self).spec_edges() == remove_pairs(old(self).spec_edges(), s, d),
            !has_edge(final(self).spec_edges(), s, d),
            forall|k: int|
                0 <= k < final(self).spec_edges().len() ==> old(self).spec_edges().contains(
                    #[trigger] final(self).spec_edges()[k],
                ),
            forall|k: int|
                0 <= k < old(self).spec_edges().len() && !((#[trigger] old(self).spec_edges()[k]).0
                    == s && old(self).spec_edges()[k].1 == d) ==> final(self).spec_edges().contains(old(self).spec_edges()[k]),
    {
        let m = self.edges.len();
        let mut kept: Vec<Edge> = Vec::new();
        let mut k: usize = 0;
        while k < m
            invariant
                m == self.spec_edges().len(),
                self.edges@ == old(self).edges@,
                self.nodes@ == old(self).nodes@,
                k <= m,
                kept@ == remove_pairs(self.spec_edges().take(k as int), s, d),
                forall|j: int|
                    0 <= j < kept@.len() ==> self.spec_edges().contains(#[trigger] kept@[j]) && !((
                    kept@[j]).0 == s && (kept@[j]).1 == d),
                forall|j: int|
                    0 <= j < k && !((#[trigger] self.spec_edges()[j]).0 == s
                        && self.spec_edges()[j].1 == d) ==> kept@.contains(self.spec_edges()[j]),
            decreases m - k,
        {
            let e = self.edges[k];
            let ghost keptpre = kept@;
            proof {
                assert(self.spec_edges().take(k + 1).drop_last() =~= self.spec_edges().take(
                    k as int,
                ));
                assert(self.spec_edges().take(k + 1).last() == self.spec_edges()[k as int]);
            }
            if !(e.0 == s && e.1 == d) {
                kept.push(e);
                proof {
                    assert(kept@.last() == self.spec_edges()[k as int]);
                    assert(self.spec_edges().contains(kept@[kept@.len() - 1])) by {
                        assert(self.spec_edges()[k as int] == kept@[kept@.len() - 1]);
                    }
                    assert forall|j: int|
                        0 <= j < k + 1 && !((#[trigger] self.spec_edges()[j]).0 == s
                            && self.spec_edges()[j].1 == d) implies kept@.contains(
                        self.spec_edges()[j]) by {
                        if j < k {
                            let w = choose|w: int|
                                0 <= w < keptpre.len() && keptpre[w] == self.spec_edges()[j];
                            assert(kept@[w] == self.spec_edges()[j]);
                        } else {
                            assert(kept@[kept@.len() - 1] == self.spec_edges()[j]);
                        }
                    }
                }
            } else {
                proof {
                    assert forall|j: int|
                        0 <= j < k + 1 && !((#[trigger] self.spec_edges()[j]).0 == s
                            && self.spec_edges()[j].1 == d) implies kept@.contains(
                        self.spec_edges()[j]) by {
                        let w = choose|w: int|
                            0 <= w < keptpre.len() && keptpre[w] == self.spec_edges()[j];
                        assert(kept@[w] == self.spec_edges()[j]);
                    }
                }
            }
            k += 1;
        }
        proof {
            assert(self.spec_edges().take(m as int) =~= self.spec_edges());
            assert forall|j: int| 0 <= j < kept@.len() implies #[trigger] self.edges@.contains(
                kept@[j],
            ) by {
                assert(self.spec_edges().contains(kept@[j]));
            }
            lemma_acyclic_subset(kept@, self.edges@);
            assert forall|j: int|
                0 <= j < kept@.len() implies (#[trigger] kept@[j]).0 < self.nodes@.len()
                    && kept@[j].1 < self.nodes@.len() by {
                assert(self.edges@.contains(kept@[j]));
                let w = choose|w: int| 0 <= w < self.edges@.len() && self.edges@[w] == kept@[j];
                assert(self.spec_edges()[w] == kept@[j]);
                assert(self.spec_edges()[w].0 < self.spec_nodes().len());
            }
        }
        self.edges = kept;
    }

    /// Add a reference edge from `s` to `d`, unless it would close a directed
    /// cycle: then nothing changes and the edge's endpoint tokens come back in
    /// the error.
    pub fn insert_edge(&mut self, s: usize, d: usize, ctx: Context) -> (r: Result<(), DagError>)
        requires
            old(self).wf(),
            s < old(self).spec_nodes().len(),
            d < old(self).spec_nodes().len(),
        ensures
            final(self).wf(),
            final(self).spec_nodes() == old(self).spec_nodes(),
            match r {
                Result::Ok(_) => {
                    &&& final(self).spec_edges() == old(self).spec_edges().push((s, d, ctx))
                    &&& s != d
                    &&& !reaches(old(self).spec_edges(), d, s)
                },
                Result::Err(e) => {
                    &&& final(self).spec_edges() == old(self).spec_edges()
                    &&& (s == d || reaches(old(self).spec_edges(), d, s))
                    &&& e == DagError::Cyclic(
                        old(self).spec_nodes()[s as int].token,
                        old(self).spec_nodes()[d as int].token,
                    )
                },
            },
    {
        if s == d {
            return Err(DagError::Cyclic(self.nodes[s].token, self.nodes[d].token));
        }
        let visited = self.reachable_from(d);
        if visited[s] {
            return Err(DagError::Cyclic(self.nodes[s].token, self.nodes[d].token));
        }
        proof {
            lemma_acyclic_push(self.edges@, s, d, ctx);
        }
        self.edges.push((s, d, ctx));
        Ok(())
    }
}

/// A set of nodes that contains `start` and is closed under edges contains
/// the end of every path that begins at `start`.
proof fn lemma_closed_covers_path(es: Seq<Edge>, visited: Seq<bool>, p: Seq<usize>, n: int)
    requires
        visited.len() == n,
        forall|k: int| 0 <= k < es.len() ==> (#[trigger] es[k]).0 < n && es[k].1 < n,
        forall|k: int|
            0 <= k < es.len() && visited[(#[trigger] es[k]).0 as int] ==> visited[es[k].1 as int],
        is_path(es, p),
        p.first() < n,
        visited[p.first() as int],
    ensures
        p.last() < n,
        visited[p.last() as int],
    decreases p.len(),
{
    if p.len() == 1 {
    } else {
        assert(has_edge(es, p[0], p[1]));
        let k = choose|k: int| 0 <= k < es.len() && es[k].0 == p[0] && es[k].1 == p[1];
        assert(visited[p[1] as int]);
        let q = p.drop_first();
        assert forall|i: int| #![trigger q[i]] 0 <= i < q.len() - 1 implies has_edge(es, q[i], q[i + 1]) by {
            assert(q[i] == p[i + 1] && q[i + 1] == p[i + 2]);
        }
        assert(is_path(es, q));
        lemma_closed_covers_path(es, visited, q, n);
        assert(q.last() == p.last());
    }
}

/// No path of an acyclic graph that uses at least one edge returns to its
/// starting node.
pub proof fn lemma_acyclic_path_ends_differ(es: Seq<Edge>, p: Seq<usize>)
    requires
        acyclic(es),
        is_path(es, p),
        p.len() >= 2,
    ensures
        p.first() != p.last(),
{
    if p.first() == p.last() {
        assert(reaches_plus(es, p.first(), p.last()));
    }
}

} // verus!
