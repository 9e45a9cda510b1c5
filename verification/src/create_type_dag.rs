//! The type-DAG builder: registers every user-defined type declaration and
//! scoped type reference as a node of the dependency graph, attributes edges
//! with the syntactic context of the reference, and turns refused edges into
//! `cyclic_type_dependency` diagnostics. The graph stays acyclic throughout
//! (see `TypeDag`), and every step is specified exactly by `dag_step_spec`:
//! which node and edge an event inserts, the reversed-edge convention, the
//! ownership discipline, and the diagnostic a failure yields.

use vstd::prelude::*;
use vstd::string::StringExecFns;
use crate::check_msb_lsb::drop_top;
use crate::dag::{
    node_views, spec_insert_node_v, Context, DagError, DagNodeView, Edge, TypeDag,
};
use crate::error::{diag_view, diag_views, AnalyzerError, DiagView};
use crate::events::{events_ns_ok, ev_veryl, walk_events, DeclKind, Event};
use crate::intern::{spec_name_of, StrTable};
use crate::symbol::{spec_resolve, SymbolEntry, SymbolPathNamespace, SymbolTable};
use crate::tables::NamespaceTable;
use crate::token::Token;
use crate::tree::{Description, Veryl};

verus! {

/// The edge context a scope-opening declaration contributes, if any.
pub open spec fn spec_context_of(k: DeclKind) -> Option<Context> {
    match k {
        DeclKind::Struct => Option::Some(Context::Struct),
        DeclKind::Union => Option::Some(Context::Union),
        DeclKind::Enum => Option::Some(Context::Enum),
        DeclKind::Modport => Option::Some(Context::Modport),
        DeclKind::Module => Option::Some(Context::Module),
        DeclKind::Interface => Option::Some(Context::Interface),
        DeclKind::Package => Option::Some(Context::Package),
        DeclKind::TypeDef => Option::None,
        DeclKind::Const => Option::None,
    }
}

/// Whether the declaration opens a scope that owns later declarations.
pub open spec fn opens_scope(k: DeclKind) -> bool {
    spec_context_of(k) is Some
}

/// The rendered `a::b::c` spelling of a scoped path.
pub open spec fn spec_scoped_name(names: Seq<Seq<char>>, texts: Seq<usize>) -> Seq<char>
    decreases texts.len(),
{
    if texts.len() == 0 {
        Seq::empty()
    } else if texts.len() == 1 {
        spec_name_of(names, texts[0])
    } else {
        spec_scoped_name(names, texts.drop_last()) + "::"@ + spec_name_of(names, texts.last())
    }
}

/// The children recorded under `p`, scanning from the front; unique keys make
/// the entry the only one.
pub open spec fn owned_lookup(owned: Seq<(usize, Seq<usize>)>, p: usize) -> Option<Seq<usize>>
    decreases owned.len(),
{
    if owned.len() == 0 {
        Option::None
    } else if owned[0].0 == p {
        Option::Some(owned[0].1)
    } else {
        owned_lookup(owned.drop_first(), p)
    }
}

/// Whether `c` was recorded as syntactically owned by `p`.
pub open spec fn owned_has(owned: Seq<(usize, Seq<usize>)>, p: usize, c: usize) -> bool {
    match owned_lookup(owned, p) {
        Option::Some(cs) => cs.contains(c),
        Option::None => false,
    }
}

/// The first index recording parent `p`, if any.
pub open spec fn owned_find(owned: Seq<(usize, Seq<usize>)>, p: usize) -> Option<int>
    decreases owned.len(),
{
    if owned.len() == 0 {
        Option::None
    } else if owned[0].0 == p {
        Option::Some(0)
    } else {
        match owned_find(owned.drop_first(), p) {
            Option::Some(i) => Option::Some(i + 1),
            Option::None => Option::None,
        }
    }
}

/// Recording one more owned child: append to the parent's entry, or open one.
pub open spec fn owned_add(owned: Seq<(usize, Seq<usize>)>, p: usize, c: usize) -> Seq<
    (usize, Seq<usize>),
> {
    match owned_find(owned, p) {
        Option::Some(i) => owned.update(i, (p, owned[i].1.push(c))),
        Option::None => owned.push((p, seq![c])),
    }
}

pub open spec fn owned_uniq(owned: Seq<(usize, Seq<usize>)>) -> bool {
    forall|i: int, j: int|
        0 <= i < j < owned.len() ==> (#[trigger] owned[i]).0 != (#[trigger] owned[j]).0
}

/// The ownership discipline's edge removal: any reference edge `c -> p`
/// recorded earlier disappears before the ownership edge is recorded.
pub open spec fn ownership_remove(edges: Seq<Edge>, c: usize, p: usize) -> Seq<Edge> {
    if crate::dag::has_edge(edges, c, p) {
        crate::dag::remove_pairs(edges, c, p)
    } else {
        edges
    }
}

/// What the handler's `insert_node` does: an unresolved path appends exactly
/// one `undefined_identifier` diagnostic and returns no id; a resolved one
/// registers the node and returns its id.
pub open spec fn node_insert_spec(
    errors: Seq<DiagView>,
    nodes: Seq<DagNodeView>,
    st: Seq<SymbolEntry>,
    path: Seq<usize>,
    ns: Seq<usize>,
    name: Seq<char>,
    token: Token,
) -> (Seq<DiagView>, Seq<DagNodeView>, Option<usize>) {
    match spec_resolve(st, path, ns) {
        Option::None => (
            errors.push(DiagView::Undefined { name, token }),
            nodes,
            Option::None,
        ),
        Option::Some(si) => {
            let r = spec_insert_node_v(nodes, si as usize, name, token);
            (errors, r.0, Option::Some(r.1 as usize))
        },
    }
}

/// What the handler's `insert_edge(s, e, c)` does. The stored edge is
/// reversed: it runs from dependee `e` to dependent `s`, so a forward
/// traversal of the graph yields definition order. An edge that would close a
/// cycle is refused and appends exactly one `cyclic_type_dependency`
/// diagnostic, named after the two endpoint tokens and located at the
/// dependee's token.
pub open spec fn edge_insert_spec(
    errors: Seq<DiagView>,
    nodes: Seq<DagNodeView>,
    edges: Seq<Edge>,
    s: usize,
    e: usize,
    c: Context,
    names: Seq<Seq<char>>,
) -> (Seq<DiagView>, Seq<Edge>) {
    if e == s || crate::dag::reaches(edges, s, e) {
        (
            errors.push(
                DiagView::Cyclic {
                    start: spec_name_of(names, nodes[e as int].token.text),
                    end: spec_name_of(names, nodes[s as int].token.text),
                    token: nodes[s as int].token,
                },
            ),
            edges,
        )
    } else {
        (errors, edges.push((e, s, c)))
    }
}

/// Edges from every gathered file-scope import into the freshly opened scope
/// `p`, in gathering order; unresolved imports (`None` slots) contribute
/// nothing.
pub open spec fn import_edges_spec(
    errors: Seq<DiagView>,
    nodes: Seq<DagNodeView>,
    edges: Seq<Edge>,
    imports: Seq<Option<usize>>,
    i: int,
    p: usize,
    c: Context,
    names: Seq<Seq<char>>,
) -> (Seq<DiagView>, Seq<Edge>)
    decreases i,
{
    if i <= 0 {
        (errors, edges)
    } else {
        let r = import_edges_spec(errors, nodes, edges, imports, i - 1, p, c, names);
        match imports[i - 1] {
            Option::Some(ch) => if ch < nodes.len() {
                edge_insert_spec(r.0, nodes, r.1, p, ch, c, names)
            } else {
                r
            },
            Option::None => r,
        }
    }
}

pub ghost struct CreateTypeDagView {
    pub errors: Seq<DiagView>,
    pub parent: Seq<usize>,
    pub ctx: Seq<Context>,
    pub file_scope_import: Seq<Option<usize>>,
    pub owned: Seq<(usize, Seq<usize>)>,
    pub scoped: Option<(Token, Seq<usize>, Seq<usize>)>,
}

/// One callback of the walk: the handler state, the node set and the edge set
/// afterwards.
pub open spec fn dag_step_spec(
    s: CreateTypeDagView,
    nodes: Seq<DagNodeView>,
    edges: Seq<Edge>,
    e: Event,
    st: Seq<SymbolEntry>,
    nt: Map<u64, Seq<usize>>,
    names: Seq<Seq<char>>,
) -> (CreateTypeDagView, Seq<DagNodeView>, Seq<Edge>) {
    match e {
        Event::EnterExprIdent(_) => (
            CreateTypeDagView { ctx: s.ctx.push(Context::ExpressionIdentifier), ..s },
            nodes,
            edges,
        ),
        Event::LeaveExprIdent => (CreateTypeDagView { ctx: drop_top(s.ctx), ..s }, nodes, edges),
        Event::EnterScopedId(t) => (
            CreateTypeDagView { scoped: Option::Some((t, seq![t.text], nt[t.id])), ..s },
            nodes,
            edges,
        ),
        Event::ScopedIdPart(t) => match s.scoped {
            Option::Some((f, ts, ns)) => (
                CreateTypeDagView { scoped: Option::Some((f, ts.push(t.text), ns)), ..s },
                nodes,
                edges,
            ),
            Option::None => (s, nodes, edges),
        },
        Event::LeaveScopedId => {
            let s1 = CreateTypeDagView { scoped: Option::None, ..s };
            match s.scoped {
                Option::None => (s1, nodes, edges),
                Option::Some((first, texts, ns)) => {
                    if s.ctx.len() > 0 && s.ctx.last() != Context::ExpressionIdentifier {
                        let name = spec_scoped_name(names, texts);
                        let ins = node_insert_spec(s.errors, nodes, st, texts, ns, name, first);
                        let s2 = CreateTypeDagView { errors: ins.0, ..s1 };
                        match ins.2 {
                            Option::Some(c) => if s.parent.len() > 0 && !owned_has(
                                s.owned,
                                s.parent.last(),
                                c,
                            ) {
                                let r = edge_insert_spec(
                                    s2.errors,
                                    ins.1,
                                    edges,
                                    s.parent.last(),
                                    c,
                                    s.ctx.last(),
                                    names,
                                );
                                (CreateTypeDagView { errors: r.0, ..s2 }, ins.1, r.1)
                            } else {
                                (s2, ins.1, edges)
                            },
                            Option::None => (s2, ins.1, edges),
                        }
                    } else {
                        (s1, nodes, edges)
                    }
                },
            }
        },
        Event::EnterDecl(k, t) => {
            let ns = nt[t.id];
            let name = spec_name_of(names, t.text);
            let ins = node_insert_spec(s.errors, nodes, st, seq![t.text], ns, name, t);
            let s1 = CreateTypeDagView { errors: ins.0, ..s };
            let nodes1 = ins.1;
            match k {
                DeclKind::Module | DeclKind::Interface | DeclKind::Package => {
                    let parent1 = match ins.2 {
                        Option::Some(x) => s.parent.push(x),
                        Option::None => s.parent,
                    };
                    let ctx1 = s.ctx.push(spec_context_of(k)->Some_0);
                    let s2 = CreateTypeDagView { parent: parent1, ctx: ctx1, ..s1 };
                    if parent1.len() > 0 {
                        let r = import_edges_spec(
                            s2.errors,
                            nodes1,
                            edges,
                            s.file_scope_import,
                            s.file_scope_import.len() as int,
                            parent1.last(),
                            ctx1.last(),
                            names,
                        );
                        (CreateTypeDagView { errors: r.0, ..s2 }, nodes1, r.1)
                    } else {
                        (s2, nodes1, edges)
                    }
                },
                DeclKind::Struct | DeclKind::Union | DeclKind::Enum | DeclKind::Modport => {
                    let ctx1 = s.ctx.push(spec_context_of(k)->Some_0);
                    match ins.2 {
                        Option::Some(x) => if s.parent.len() > 0 && s.ctx.len() > 0 {
                            let p = s.parent.last();
                            let cx = s.ctx.last();
                            let edges1 = ownership_remove(edges, x, p);
                            let owned1 = owned_add(s.owned, p, x);
                            let r = edge_insert_spec(s1.errors, nodes1, edges1, x, p, cx, names);
                            (
                                CreateTypeDagView {
                                    errors: r.0,
                                    owned: owned1,
                                    parent: s.parent.push(x),
                                    ctx: ctx1,
                                    ..s1
                                },
                                nodes1,
                                r.1,
                            )
                        } else {
                            (
                                CreateTypeDagView { parent: s.parent.push(x), ctx: ctx1, ..s1 },
                                nodes1,
                                edges,
                            )
                        },
                        Option::None => (CreateTypeDagView { ctx: ctx1, ..s1 }, nodes1, edges),
                    }
                },
                DeclKind::TypeDef | DeclKind::Const => {
                    match ins.2 {
                        Option::Some(x) => if s.parent.len() > 0 && s.ctx.len() > 0 {
                            let p = s.parent.last();
                            let cx = s.ctx.last();
                            let edges1 = ownership_remove(edges, x, p);
                            let owned1 = owned_add(s.owned, p, x);
                            let r = edge_insert_spec(s1.errors, nodes1, edges1, x, p, cx, names);
                            (
                                CreateTypeDagView { errors: r.0, owned: owned1, ..s1 },
                                nodes1,
                                r.1,
                            )
                        } else {
                            (s1, nodes1, edges)
                        },
                        Option::None => (s1, nodes1, edges),
                    }
                },
            }
        },
        Event::LeaveDecl(k) => if opens_scope(k) {
            (
                CreateTypeDagView { parent: drop_top(s.parent), ctx: drop_top(s.ctx), ..s },
                nodes,
                edges,
            )
        } else {
            (s, nodes, edges)
        },
        _ => (s, nodes, edges),
    }
}

/// The handler folded over an event stream, oldest event first.
pub open spec fn dag_run_spec(
    s: CreateTypeDagView,
    nodes: Seq<DagNodeView>,
    edges: Seq<Edge>,
    es: Seq<Event>,
    st: Seq<SymbolEntry>,
    nt: Map<u64, Seq<usize>>,
    names: Seq<Seq<char>>,
) -> (CreateTypeDagView, Seq<DagNodeView>, Seq<Edge>)
    decreases es.len(),
{
    if es.len() == 0 {
        (s, nodes, edges)
    } else {
        let r = dag_run_spec(s, nodes, edges, es.drop_last(), st, nt, names);
        dag_step_spec(r.0, r.1, r.2, es.last(), st, nt, names)
    }
}

/// The file-entry prescan: every top-level import is registered as a node and
/// its id (or a `None` slot for an unresolved one, keeping positions) is
/// appended to the gathered imports.
pub open spec fn prescan_spec(
    errors: Seq<DiagView>,
    nodes: Seq<DagNodeView>,
    imports: Seq<Option<usize>>,
    descs: Seq<Description>,
    i: int,
    st: Seq<SymbolEntry>,
    nt: Map<u64, Seq<usize>>,
    names: Seq<Seq<char>>,
) -> (Seq<DiagView>, Seq<DagNodeView>, Seq<Option<usize>>)
    decreases i,
{
    if i <= 0 {
        (errors, nodes, imports)
    } else {
        let r = prescan_spec(errors, nodes, imports, descs, i - 1, st, nt, names);
        match descs[i - 1] {
            Description::Import(im) => {
                let ns = if nt.contains_key(im.target.first.id) {
                    nt[im.target.first.id]
                } else {
                    Seq::empty()
                };
                let name = spec_scoped_name(names, im.target.spec_texts());
                let n = node_insert_spec(
                    r.0,
                    r.1,
                    st,
                    im.target.spec_texts(),
                    ns,
                    name,
                    im.target.first,
                );
                (n.0, n.1, r.2.push(n.2))
            },
            _ => r,
        }
    }
}

/// An expression-position reference never contaminates the type DAG: with an
/// empty context, or inside an expression identifier, closing a scoped
/// identifier inserts no node and no edge and reports nothing.
pub proof fn lemma_expression_position_suppressed(
    s: CreateTypeDagView,
    nodes: Seq<DagNodeView>,
    edges: Seq<Edge>,
    st: Seq<SymbolEntry>,
    nt: Map<u64, Seq<usize>>,
    names: Seq<Seq<char>>,
)
    requires
        s.ctx.len() == 0 || s.ctx.last() == Context::ExpressionIdentifier,
    ensures
        ({
            let r = dag_step_spec(s, nodes, edges, Event::LeaveScopedId, st, nt, names);
            r.0.errors == s.errors && r.1 == nodes && r.2 == edges
        }),
{
}

/// An expression identifier only drives the context stack: entering pushes
/// its suppressing context and leaving pops one entry; neither phase creates
/// a node, an edge or a diagnostic, and a balanced pair restores the context.
pub proof fn lemma_expr_ident_only_context(
    s: CreateTypeDagView,
    nodes: Seq<DagNodeView>,
    edges: Seq<Edge>,
    t: Token,
    st: Seq<SymbolEntry>,
    nt: Map<u64, Seq<usize>>,
    names: Seq<Seq<char>>,
)
    ensures
        ({
            let enter = dag_step_spec(s, nodes, edges, Event::EnterExprIdent(t), st, nt, names);
            let leave = dag_step_spec(
                enter.0,
                enter.1,
                enter.2,
                Event::LeaveExprIdent,
                st,
                nt,
                names,
            );
            &&& enter.0.ctx == s.ctx.push(Context::ExpressionIdentifier)
            &&& enter.0.errors == s.errors && enter.1 == nodes && enter.2 == edges
            &&& leave.0.ctx == s.ctx
            &&& leave.0.errors == s.errors && leave.1 == nodes && leave.2 == edges
        }),
{
    let enter = dag_step_spec(s, nodes, edges, Event::EnterExprIdent(t), st, nt, names);
    assert(drop_top(enter.0.ctx) =~= s.ctx);
}

pub struct CreateTypeDag {
    pub errors: Vec<AnalyzerError>,
    parent: Vec<usize>,
    ctx: Vec<Context>,
    file_scope_import: Vec<Option<usize>>,
    owned: Vec<(usize, Vec<usize>)>,
    scoped: Option<(Token, Vec<usize>, Vec<usize>)>,
}

impl View for CreateTypeDag {
    type V = CreateTypeDagView;

    closed spec fn view(&self) -> CreateTypeDagView {
        CreateTypeDagView {
            errors: diag_views(self.errors@),
            parent: self.parent@,
            ctx: self.ctx@,
            file_scope_import: self.file_scope_import@,
            owned: self.owned@.map(|_i: int, e: (usize, Vec<usize>)| (e.0, e.1@)),
            scoped: match self.scoped {
                Option::Some((t, ts, ns)) => Option::Some((t, ts@, ns@)),
                Option::None => Option::None,
            },
        }
    }
}

impl CreateTypeDag {
    /// Every parent id the handler holds is a node of `dag`, and the owned
    /// set records each parent once.
    pub open spec fn inv(&self, dag: &TypeDag) -> bool {
        &&& forall|i: int|
            0 <= i < self@.parent.len() ==> (#[trigger] self@.parent[i]) < dag.spec_nodes().len()
        &&& owned_uniq(self@.owned)
    }

    pub fn new() -> (r: CreateTypeDag)
        ensures
            r@ == (CreateTypeDagView {
                errors: Seq::<DiagView>::empty(),
                parent: Seq::<usize>::empty(),
                ctx: Seq::<Context>::empty(),
                file_scope_import: Seq::<Option<usize>>::empty(),
                owned: Seq::<(usize, Seq<usize>)>::empty(),
                scoped: Option::<(Token, Seq<usize>, Seq<usize>)>::None,
            }),
    {
        let r = CreateTypeDag {
            errors: Vec::new(),
            parent: Vec::new(),
            ctx: Vec::new(),
            file_scope_import: Vec::new(),
            owned: Vec::new(),
            scoped: Option::None,
        };
        proof {
            assert(r@.errors =~= Seq::<DiagView>::empty());
            assert(r@.owned =~= Seq::<(usize, Seq<usize>)>::empty());
        }
        r
    }

    /// How many scopes are currently open; zero at the end of a pass.
    pub fn open_scopes(&self) -> (r: usize)
        ensures
            r == self@.ctx.len(),
    {
        self.ctx.len()
    }

    /// Render a dag error as a diagnostic: a refused cycle is named after its
    /// two endpoint tokens through the interner (with the placeholder for an
    /// unknown id) and located at the second; an unresolved path keeps its
    /// name and token.
    fn to_analyzer_error(&self, de: DagError, it: &StrTable) -> (r: AnalyzerError)
        ensures
            diag_view(r) == (match de {
                DagError::Cyclic(a, b) => DiagView::Cyclic {
                    start: spec_name_of(it@, a.text),
                    end: spec_name_of(it@, b.text),
                    token: b,
                },
                DagError::UnableToResolve { name, token } => DiagView::Undefined {
                    name: name@,
                    token,
                },
            }),
    {
        match de {
            DagError::Cyclic(s, e) => {
                let start = it.get_or_unknown(s.text);
                let end = it.get_or_unknown(e.text);
                AnalyzerError::CyclicTypeDependency { start, end, token: e }
            },
            DagError::UnableToResolve { name, token } => {
                AnalyzerError::UndefinedIdentifier { name, token }
            },
        }
    }

    /// Register a node, turning a failure into exactly one diagnostic: the id
    /// comes back if and only if the path resolved.
    fn insert_node(
        &mut self,
        dag: &mut TypeDag,
        st: &SymbolTable,
        it: &StrTable,
        path: SymbolPathNamespace,
        name: String,
        token: Token,
    ) -> (r: Option<usize>)
        requires
            old(dag).wf(),
        ensures
            final(dag).wf(),
            final(dag).spec_nodes().len() >= old(dag).spec_nodes().len(),
            final(dag).spec_edges() == old(dag).spec_edges(),
            r matches Option::Some(id) ==> id < final(dag).spec_nodes().len(),
            ({
                let n = node_insert_spec(
                    old(self)@.errors,
                    node_views(old(dag).spec_nodes()),
                    st@,
                    path.path@,
                    path.namespace@,
                    name@,
                    token,
                );
                final(self)@.errors == n.0 && node_views(final(dag).spec_nodes()) == n.1 && r
                    == n.2
            }),
            final(self)@.parent == old(self)@.parent,
            final(self)@.ctx == old(self)@.ctx,
            final(self)@.file_scope_import == old(self)@.file_scope_import,
            final(self)@.owned == old(self)@.owned,
            final(self)@.scoped == old(self)@.scoped,
    {
        let ghost prenodes = dag.spec_nodes();
        match dag.insert_node(st, &path, name, token) {
            Result::Ok(n) => {
                proof {
                    let si = spec_resolve(st@, path.path@, path.namespace@)->Some_0;
                    crate::dag::lemma_insert_node_view(prenodes, si as usize, name, token);
                }
                Some(n)
            },
            Result::Err(e) => {
                let err = self.to_analyzer_error(e, it);
                self.errors.push(err);
                proof {
                    assert(final(self)@.errors =~= old(self)@.errors.push(
                        DiagView::Undefined { name: name@, token },
                    ));
                }
                None
            },
        }
    }

    /// Record a reference edge per `edge_insert_spec`: the stored edge is
    /// reversed (dependee first), and a refused cycle becomes exactly one
    /// diagnostic.
    fn insert_edge(&mut self, dag: &mut TypeDag, it: &StrTable, s: usize, e: usize, edge: Context)
        requires
            old(dag).wf(),
            s < old(dag).spec_nodes().len(),
            e < old(dag).spec_nodes().len(),
        ensures
            final(dag).wf(),
            final(dag).spec_nodes() == old(dag).spec_nodes(),
            ({
                let r = edge_insert_spec(
                    old(self)@.errors,
                    node_views(old(dag).spec_nodes()),
                    old(dag).spec_edges(),
                    s,
                    e,
                    edge,
                    it@,
                );
                final(self)@.errors == r.0 && final(dag).spec_edges() == r.1
            }),
            final(self)@.parent == old(self)@.parent,
            final(self)@.ctx == old(self)@.ctx,
            final(self)@.file_scope_import == old(self)@.file_scope_import,
            final(self)@.owned == old(self)@.owned,
            final(self)@.scoped == old(self)@.scoped,
    {
        let ghost prenodes = dag.spec_nodes();
        match dag.insert_edge(e, s, edge) {
            Result::Ok(_) => {},
            Result::Err(er) => {
                let err = self.to_analyzer_error(er, it);
                self.errors.push(err);
                proof {
                    assert(node_views(prenodes)[e as int].token == prenodes[e as int].token);
                    assert(node_views(prenodes)[s as int].token == prenodes[s as int].token);
                    assert(final(self)@.errors =~= old(self)@.errors.push(
                        DiagView::Cyclic {
                            start: spec_name_of(it@, prenodes[e as int].token.text),
                            end: spec_name_of(it@, prenodes[s as int].token.text),
                            token: prenodes[s as int].token,
                        },
                    ));
                }
            },
        }
    }

    /// Mark `child` as syntactically owned by `parent`: a previously recorded
    /// reference edge from the child is removed first (the ownership relation
    /// wins), and the child joins the parent's owned set.
    fn insert_owned(&mut self, dag: &mut TypeDag, parent: usize, child: usize)
        requires
            old(dag).wf(),
            owned_uniq(old(self)@.owned),
        ensures
            final(dag).wf(),
            final(dag).spec_nodes() == old(dag).spec_nodes(),
            final(dag).spec_edges() == ownership_remove(old(dag).spec_edges(), child, parent),
            final(self)@.owned == owned_add(old(self)@.owned, parent, child),
            owned_uniq(final(self)@.owned),
            final(self)@.errors == old(self)@.errors,
            final(self)@.parent == old(self)@.parent,
            final(self)@.ctx == old(self)@.ctx,
            final(self)@.file_scope_import == old(self)@.file_scope_import,
            final(self)@.scoped == old(self)@.scoped,
    {
        if dag.exist_edge(child, parent) {
            dag.remove_edge(child, parent);
        }
        let ghost preowned = self@.owned;
        let n = self.owned.len();
        let mut i: usize = 0;
        while i < n
            invariant
                n == self.owned@.len(),
                i <= n,
                self@.owned == preowned,
                preowned == old(self)@.owned,
                owned_uniq(preowned),
                dag.wf(),
                dag.spec_nodes() == old(dag).spec_nodes(),
                dag.spec_edges() == ownership_remove(old(dag).spec_edges(), child, parent),
                self@.errors == old(self)@.errors,
                self@.parent == old(self)@.parent,
                self@.ctx == old(self)@.ctx,
                self@.file_scope_import == old(self)@.file_scope_import,
                self@.scoped == old(self)@.scoped,
                forall|j: int| 0 <= j < i ==> (#[trigger] preowned[j]).0 != parent,
            decreases n - i,
        {
            if self.owned[i].0 == parent {
                proof {
                    lemma_owned_find_first(preowned, parent, i as int);
                }
                self.owned[i].1.push(child);
                proof {
                    assert(self@.owned =~= owned_add(preowned, parent, child));
                    assert forall|a: int, b: int|
                        0 <= a < b < self@.owned.len() implies (#[trigger] self@.owned[a]).0 != (
                    #[trigger] self@.owned[b]).0 by {
                        if a != i && b != i {
                            assert(self@.owned[a] == preowned[a] && self@.owned[b] == preowned[b]);
                        } else if a == i {
                            assert(self@.owned[b] == preowned[b] && preowned[a].0 == parent);
                        } else {
                            assert(self@.owned[a] == preowned[a] && preowned[b].0 == parent);
                        }
                    }
                }
                return;
            }
            i += 1;
        }
        proof {
            lemma_owned_find_none(preowned, parent);
        }
        let mut children: Vec<usize> = Vec::new();
        children.push(child);
        self.owned.push((parent, children));
        proof {
            assert(seq![child] =~= Seq::<usize>::empty().push(child));
            assert(self@.owned =~= owned_add(preowned, parent, child));
            assert forall|a: int, b: int|
                0 <= a < b < self@.owned.len() implies (#[trigger] self@.owned[a]).0 != (
            #[trigger] self@.owned[b]).0 by {
                if b < self@.owned.len() - 1 {
                    assert(self@.owned[a] == preowned[a] && self@.owned[b] == preowned[b]);
                } else {
                    assert(self@.owned[a] == preowned[a]);
                }
            }
        }
    }

    /// Whether `child` was recorded as owned by `parent`.
    fn is_owned(&self, parent: usize, child: usize) -> (r: bool)
        requires
            owned_uniq(self@.owned),
        ensures
            r == owned_has(self@.owned, parent, child),
    {
        let n = self.owned.len();
        let mut i: usize = 0;
        while i < n
            invariant
                n == self.owned@.len(),
                i <= n,
                owned_uniq(self@.owned),
                forall|j: int| 0 <= j < i ==> (#[trigger] self@.owned[j]).0 != parent,
            decreases n - i,
        {
            if self.owned[i].0 == parent {
                proof {
                    lemma_owned_lookup_at(self@.owned, parent, i as int);
                }
                let m = self.owned[i].1.len();
                let mut j: usize = 0;
                while j < m
                    invariant
                        i < self.owned@.len(),
                        m == self@.owned[i as int].1.len(),
                        m == self.owned@[i as int].1@.len(),
                        j <= m,
                        owned_lookup(self@.owned, parent) == Option::Some(
                            self@.owned[i as int].1,
                        ),
                        forall|w: int| 0 <= w < j ==> self@.owned[i as int].1[w] != child,
                    decreases m - j,
                {
                    if self.owned[i].1[j] == child {
                        proof {
                            assert(self@.owned[i as int].1[j as int] == child);
                        }
                        return true;
                    }
                    j += 1;
                }
                proof {
                    if self@.owned[i as int].1.contains(child) {
                        let w = choose|w: int|
                            0 <= w < self@.owned[i as int].1.len() && self@.owned[i as int].1[w]
                                == child;
                    }
                }
                return false;
            }
            i += 1;
        }
        proof {
            lemma_owned_lookup_none(self@.owned, parent);
        }
        false
    }

    /// File entry: gather every file-level import as a node, keeping a `None`
    /// slot for an import that does not resolve so positions are preserved.
    pub fn veryl(
        &mut self,
        tree: &Veryl,
        st: &SymbolTable,
        nt: &NamespaceTable,
        it: &StrTable,
        dag: &mut TypeDag,
    )
        requires
            old(dag).wf(),
            nt.wf(),
            old(self).inv(old(dag)),
        ensures
            final(dag).wf(),
            final(self).inv(final(dag)),
            final(dag).spec_edges() == old(dag).spec_edges(),
            ({
                let r = prescan_spec(
                    old(self)@.errors,
                    node_views(old(dag).spec_nodes()),
                    old(self)@.file_scope_import,
                    tree.descriptions@,
                    tree.descriptions@.len() as int,
                    st@,
                    nt@,
                    it@,
                );
                final(self)@.errors == r.0 && node_views(final(dag).spec_nodes()) == r.1 && final(self)@.file_scope_import == r.2
            }),
            final(self)@.parent == old(self)@.parent,
            final(self)@.ctx == old(self)@.ctx,
            final(self)@.owned == old(self)@.owned,
            final(self)@.scoped == old(self)@.scoped,
    {
        let n = tree.descriptions.len();
        let mut i: usize = 0;
        while i < n
            invariant
                n == tree.descriptions@.len(),
                i <= n,
                dag.wf(),
                nt.wf(),
                self.inv(dag),
                dag.spec_edges() == old(dag).spec_edges(),
                ({
                    let r = prescan_spec(
                        old(self)@.errors,
                        node_views(old(dag).spec_nodes()),
                        old(self)@.file_scope_import,
                        tree.descriptions@,
                        i as int,
                        st@,
                        nt@,
                        it@,
                    );
                    self@.errors == r.0 && node_views(dag.spec_nodes()) == r.1
                        && self@.file_scope_import == r.2
                }),
                self@.parent == old(self)@.parent,
                self@.ctx == old(self)@.ctx,
                self@.owned == old(self)@.owned,
                self@.scoped == old(self)@.scoped,
            decreases n - i,
        {
            let ghost dagpre = dag.spec_nodes().len();
            let ghost parpre = self@.parent;
            let is_import = matches!(&tree.descriptions[i], Description::Import(_));
            if is_import {
                let child = match &tree.descriptions[i] {
                    Description::Import(im) => {
                        let ns: Vec<usize> = match nt.get(im.target.first.id) {
                            Option::Some(v) => v.clone(),
                            Option::None => Vec::new(),
                        };
                        let path = SymbolPathNamespace { path: im.target.texts(), namespace: ns };
                        let name = scoped_name(&im.target, it);
                        self.insert_node(dag, st, it, path, name, im.target.first)
                    },
                    _ => None,
                };
                self.file_scope_import.push(child);
                proof {
                    assert forall|j: int|
                        0 <= j < self@.parent.len() implies (#[trigger] self@.parent[j])
                        < dag.spec_nodes().len() by {
                        assert(self@.parent == parpre);
                        assert(parpre[j] < dagpre);
                        assert(dagpre <= dag.spec_nodes().len());
                    }
                }
            }
            i += 1;
        }
    }

    /// One callback of the walk: exactly `dag_step_spec`.
    #[verifier::rlimit(80)]
    #[verifier::spinoff_prover]
    pub fn step(
        &mut self,
        e: &Event,
        st: &SymbolTable,
        nt: &NamespaceTable,
        it: &StrTable,
        dag: &mut TypeDag,
    )
        requires
            old(dag).wf(),
            nt.wf(),
            old(self).inv(old(dag)),
            match *e {
                Event::EnterScopedId(t) => nt@.contains_key(t.id),
                Event::EnterDecl(_, t) => nt@.contains_key(t.id),
                _ => true,
            },
        ensures
            final(dag).wf(),
            final(self).inv(final(dag)),
            ({
                let r = dag_step_spec(
                    old(self)@,
                    node_views(old(dag).spec_nodes()),
                    old(dag).spec_edges(),
                    *e,
                    st@,
                    nt@,
                    it@,
                );
                final(self)@ == r.0 && node_views(final(dag).spec_nodes()) == r.1 && final(dag).spec_edges() == r.2
            }),
    {
        match e {
            Event::EnterExprIdent(_) => {
                self.ctx.push(Context::ExpressionIdentifier);
            },
            Event::LeaveExprIdent => {
                let _ = self.ctx.pop();
                proof {
                    assert(self@.ctx =~= drop_top(old(self)@.ctx));
                }
            },
            Event::EnterScopedId(t) => {
                let ns: Vec<usize> = match nt.get(t.id) {
                    Option::Some(v) => v.clone(),
                    Option::None => {
                        proof {
                            assert(false);
                        }
                        Vec::new()
                    },
                };
                let mut texts: Vec<usize> = Vec::new();
                texts.push(t.text);
                self.scoped = Some((*t, texts, ns));
                proof {
                    assert(self@.scoped->Some_0.1 =~= seq![t.text]);
                    assert(self@.scoped == Option::Some((*t, seq![t.text], nt@[t.id])));
                }
            },
            Event::ScopedIdPart(t) => {
                match &mut self.scoped {
                    Option::Some(acc) => {
                        acc.1.push(t.text);
                    },
                    Option::None => {},
                }
            },
            Event::LeaveScopedId => {
                let acc = self.scoped.take();
                if let Option::Some((first, texts, ns)) = acc {
                    if self.ctx.len() > 0 {
                        let top = self.ctx[self.ctx.len() - 1];
                        if top != Context::ExpressionIdentifier {
                            let name = scoped_name_from_texts(&texts, it);
                            let path = SymbolPathNamespace { path: texts, namespace: ns };
                            let child = self.insert_node(dag, st, it, path, name, first);
                            if self.parent.len() > 0 {
                                if let Option::Some(c) = child {
                                    let p = self.parent[self.parent.len() - 1];
                                    proof {
                                        assert(old(self)@.parent[old(self)@.parent.len() - 1]
                                            < old(dag).spec_nodes().len());
                                    }
                                    if !self.is_owned(p, c) {
                                        self.insert_edge(dag, it, p, c, top);
                                    }
                                }
                            }
                        }
                    }
                }
            },
            Event::EnterDecl(k, t) => {
                let ns: Vec<usize> = match nt.get(t.id) {
                    Option::Some(v) => v.clone(),
                    Option::None => {
                        proof {
                            assert(false);
                        }
                        Vec::new()
                    },
                };
                let mut path_ids: Vec<usize> = Vec::new();
                path_ids.push(t.text);
                let path = SymbolPathNamespace { path: path_ids, namespace: ns };
                let name = it.get_or_unknown(t.text);
                proof {
                    assert(path.path@ =~= seq![t.text]);
                }
                let node = self.insert_node(dag, st, it, path, name, *t);
                let ghost nodes1 = node_views(dag.spec_nodes());
                let ghost errs1 = self@.errors;
                let ghost edges1 = dag.spec_edges();
                match k {
                    DeclKind::Module | DeclKind::Interface | DeclKind::Package => {
                        if let Option::Some(x) = node {
                            self.parent.push(x);
                        }
                        let c = context_of_scope(*k);
                        self.ctx.push(c);
                        let ghost pre_parent = self@.parent;
                        let ghost pre_ctx = self@.ctx;
                        let m = self.file_scope_import.len();
                        let mut i: usize = 0;
                        while i < m
                            invariant
                                m == self@.file_scope_import.len(),
                                i <= m,
                                dag.wf(),
                                self.inv(dag),
                                self@.parent == pre_parent,
                                self@.ctx == pre_ctx,
                                self@.ctx.len() >= 1,
                                self@.file_scope_import == old(self)@.file_scope_import,
                                self@.owned == old(self)@.owned,
                                self@.scoped == old(self)@.scoped,
                                node_views(dag.spec_nodes()) == nodes1,
                                self@.parent.len() > 0 ==> ({
                                    let r = import_edges_spec(
                                        errs1,
                                        nodes1,
                                        edges1,
                                        old(self)@.file_scope_import,
                                        i as int,
                                        pre_parent.last(),
                                        pre_ctx.last(),
                                        it@,
                                    );
                                    self@.errors == r.0 && dag.spec_edges() == r.1
                                }),
                                self@.parent.len() == 0 ==> self@.errors == errs1
                                    && dag.spec_edges() == edges1,
                            decreases m - i,
                        {
                            let child = self.file_scope_import[i];
                            if self.parent.len() > 0 {
                                if let Option::Some(ch) = child {
                                    if ch < dag.node_count() {
                                        let p = self.parent[self.parent.len() - 1];
                                        let cx = self.ctx[self.ctx.len() - 1];
                                        proof {
                                            assert(self@.parent[self@.parent.len() - 1]
                                                < dag.spec_nodes().len());
                                            assert(p == pre_parent.last() && cx == pre_ctx.last());
                                        }
                                        self.insert_edge(dag, it, p, ch, cx);
                                    }
                                }
                            }
                            i += 1;
                        }
                    },
                    DeclKind::Struct | DeclKind::Union | DeclKind::Enum | DeclKind::Modport => {
                        if let Option::Some(x) = node {
                            if self.parent.len() > 0 && self.ctx.len() > 0 {
                                let p = self.parent[self.parent.len() - 1];
                                let cx = self.ctx[self.ctx.len() - 1];
                                proof {
                                    assert(old(self)@.parent[old(self)@.parent.len() - 1]
                                        < old(dag).spec_nodes().len());
                                }
                                self.insert_owned(dag, p, x);
                                self.insert_edge(dag, it, x, p, cx);
                            }
                            self.parent.push(x);
                        }
                        let c = context_of_scope(*k);
                        self.ctx.push(c);
                    },
                    DeclKind::TypeDef | DeclKind::Const => {
                        if let Option::Some(x) = node {
                            if self.parent.len() > 0 && self.ctx.len() > 0 {
                                let p = self.parent[self.parent.len() - 1];
                                let cx = self.ctx[self.ctx.len() - 1];
                                proof {
                                    assert(old(self)@.parent[old(self)@.parent.len() - 1]
                                        < old(dag).spec_nodes().len());
                                }
                                self.insert_owned(dag, p, x);
                                self.insert_edge(dag, it, x, p, cx);
                            }
                        }
                    },
                }
            },
            Event::LeaveDecl(k) => {
                match k {
                    DeclKind::TypeDef | DeclKind::Const => {},
                    _ => {
                        let _ = self.parent.pop();
                        let _ = self.ctx.pop();
                        proof {
                            assert(self@.ctx =~= drop_top(old(self)@.ctx));
                            assert(self@.parent =~= drop_top(old(self)@.parent));
                        }
                    },
                }
            },
            _ => {},
        }
    }
}

/// The scope context of a scope-opening declaration kind.
fn context_of_scope(k: DeclKind) -> (r: Context)
    requires
        opens_scope(k),
    ensures
        Option::Some(r) == spec_context_of(k),
{
    match k {
        DeclKind::Struct => Context::Struct,
        DeclKind::Union => Context::Union,
        DeclKind::Enum => Context::Enum,
        DeclKind::Modport => Context::Modport,
        DeclKind::Module => Context::Module,
        DeclKind::Interface => Context::Interface,
        DeclKind::Package => Context::Package,
        DeclKind::TypeDef => {
            proof {
                assert(false);
            }
            Context::Struct
        },
        DeclKind::Const => {
            proof {
                assert(false);
            }
            Context::Struct
        },
    }
}

/// Render a scoped identifier's segments as `a::b::c`.
fn scoped_name_from_texts(texts: &Vec<usize>, it: &StrTable) -> (r: String)
    ensures
        r@ == spec_scoped_name(it@, texts@),
{
    let mut r = String::new();
    let n = texts.len();
    let mut i: usize = 0;
    while i < n
        invariant
            n == texts@.len(),
            i <= n,
            r@ == spec_scoped_name(it@, texts@.take(i as int)),
        decreases n - i,
    {
        if i > 0 {
            r.append("::");
        }
        let part = it.get_or_unknown(texts[i]);
        r.append(part.as_str());
        proof {
            assert(texts@.take(i + 1).drop_last() =~= texts@.take(i as int));
            assert(texts@.take(i + 1).last() == texts@[i as int]);
            if i == 0 {
                assert(r@ =~= spec_name_of(it@, texts@[0]));
                assert(texts@.take(1).len() == 1 && texts@.take(1)[0] == texts@[0]);
            }
        }
        i += 1;
    }
    proof {
        assert(texts@.take(n as int) =~= texts@);
    }
    r
}

/// Render a scoped identifier as `a::b::c`.
fn scoped_name(s: &crate::tree::ScopedIdentifier, it: &StrTable) -> (r: String)
    ensures
        r@ == spec_scoped_name(it@, s.spec_texts()),
{
    let texts = s.texts();
    scoped_name_from_texts(&texts, it)
}

proof fn lemma_owned_find_first(owned: Seq<(usize, Seq<usize>)>, p: usize, i: int)
    requires
        0 <= i < owned.len(),
        owned[i].0 == p,
        forall|j: int| 0 <= j < i ==> (#[trigger] owned[j]).0 != p,
    ensures
        owned_find(owned, p) == Option::Some(i),
        owned_lookup(owned, p) == Option::Some(owned[i].1),
    decreases owned.len(),
{
    if i > 0 {
        lemma_owned_find_first(owned.drop_first(), p, i - 1);
    }
}

proof fn lemma_owned_find_none(owned: Seq<(usize, Seq<usize>)>, p: usize)
    requires
        forall|j: int| 0 <= j < owned.len() ==> (#[trigger] owned[j]).0 != p,
    ensures
        owned_find(owned, p) is None,
        owned_lookup(owned, p) is None,
    decreases owned.len(),
{
    if owned.len() > 0 {
        lemma_owned_find_none(owned.drop_first(), p);
    }
}

proof fn lemma_owned_lookup_at(owned: Seq<(usize, Seq<usize>)>, p: usize, i: int)
    requires
        owned_uniq(owned),
        0 <= i < owned.len(),
        owned[i].0 == p,
    ensures
        owned_lookup(owned, p) == Option::Some(owned[i].1),
        owned_find(owned, p) == Option::Some(i),
    decreases owned.len(),
{
    assert forall|j: int| 0 <= j < i implies (#[trigger] owned[j]).0 != p by {
        assert(owned[j].0 != owned[i].0);
    }
    lemma_owned_find_first(owned, p, i);
}

proof fn lemma_owned_lookup_none(owned: Seq<(usize, Seq<usize>)>, p: usize)
    requires
        forall|j: int| 0 <= j < owned.len() ==> (#[trigger] owned[j]).0 != p,
    ensures
        owned_lookup(owned, p) is None,
{
    lemma_owned_find_none(owned, p);
}

/// Run the builder over a whole source file: gather file-level imports, then
/// walk every event; the result is exactly the prescan followed by the event
/// fold, and the dependency graph is acyclic when it returns, as it is after
/// every step.
pub fn create_type_dag_file(
    tree: &Veryl,
    st: &SymbolTable,
    nt: &NamespaceTable,
    it: &StrTable,
    dag: &mut TypeDag,
) -> (r: CreateTypeDag)
    requires
        old(dag).wf(),
        nt.wf(),
        events_ns_ok(ev_veryl(*tree), nt@),
    ensures
        final(dag).wf(),
        ({
            let fresh = CreateTypeDagView {
                errors: Seq::<DiagView>::empty(),
                parent: Seq::<usize>::empty(),
                ctx: Seq::<Context>::empty(),
                file_scope_import: Seq::<Option<usize>>::empty(),
                owned: Seq::<(usize, Seq<usize>)>::empty(),
                scoped: Option::<(Token, Seq<usize>, Seq<usize>)>::None,
            };
            let p = prescan_spec(
                fresh.errors,
                node_views(old(dag).spec_nodes()),
                fresh.file_scope_import,
                tree.descriptions@,
                tree.descriptions@.len() as int,
                st@,
                nt@,
                it@,
            );
            let start = CreateTypeDagView { errors: p.0, file_scope_import: p.2, ..fresh };
            let run = dag_run_spec(
                start,
                p.1,
                old(dag).spec_edges(),
                ev_veryl(*tree),
                st@,
                nt@,
                it@,
            );
            r@ == run.0 && node_views(final(dag).spec_nodes()) == run.1 && final(dag).spec_edges() == run.2
        }),
{
    let mut handler = CreateTypeDag::new();
    let ghost fresh = handler@;
    handler.veryl(tree, st, nt, it, dag);
    let ghost start_state = handler@;
    let ghost start_nodes = node_views(dag.spec_nodes());
    let ghost start_edges = dag.spec_edges();
    let es = walk_events(tree);
    let n = es.len();
    let mut i: usize = 0;
    while i < n
        invariant
            n == es@.len(),
            i <= n,
            es@ == ev_veryl(*tree),
            events_ns_ok(es@, nt@),
            nt.wf(),
            dag.wf(),
            handler.inv(dag),
            ({
                let run = dag_run_spec(
                    start_state,
                    start_nodes,
                    start_edges,
                    es@.take(i as int),
                    st@,
                    nt@,
                    it@,
                );
                handler@ == run.0 && node_views(dag.spec_nodes()) == run.1 && dag.spec_edges()
                    == run.2
            }),
        decreases n - i,
    {
        let ghost pre = es@.take(i as int);
        handler.step(&es[i], st, nt, it, dag);
        proof {
            assert(es@.take(i + 1).drop_last() =~= pre);
            assert(es@.take(i + 1).last() == es@[i as int]);
        }
        i += 1;
    }
    proof {
        assert(es@.take(n as int) =~= es@);
    }
    handler
}

} // verus!
