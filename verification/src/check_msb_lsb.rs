//! The MSB/LSB resolver: checks that `msb`/`lsb` appear only inside the
//! bracketed select of an expression identifier, and resolves every valid
//! `msb` to the upper-bound expression of the selected dimension, recording it
//! in the MSB table.

use vstd::prelude::*;
use std::rc::Rc;
use crate::error::AnalyzerError;
use crate::events::{ev_veryl, events_ns_ok, walk_events, Event};
use crate::symbol::{spec_resolve, Symbol, SymbolEntry, SymbolKind, SymbolPathNamespace, SymbolTable, Type};
use crate::tables::{MsbTable, NamespaceTable};
use crate::token::Token;
use crate::tree::{Expression, Veryl};

verus! {

/// The chain of types reached from `ty` by unfolding `TypeDef` aliases
/// through `UserDefined` kinds, every alias resolved in namespace `ns`. The
/// trace stops at the first non-alias or unresolved type, or when `fuel` runs
/// out; a fuel of the symbol-table size covers every acyclic alias chain.
pub open spec fn trace_chain(st: Seq<SymbolEntry>, ty: Type, ns: Seq<usize>, fuel: nat) -> Seq<Type>
    decreases fuel,
{
    seq![ty] + (match ty.kind {
        crate::symbol::TypeKind::UserDefined(p) => {
            if fuel == 0 {
                Seq::empty()
            } else {
                match spec_resolve(st, p@, ns) {
                    Option::Some(i) => match st[i].symbol.kind {
                        SymbolKind::TypeDef { ty: t2 } => trace_chain(st, t2, ns, (fuel - 1) as nat),
                        _ => Seq::empty(),
                    },
                    Option::None => Seq::empty(),
                }
            }
        },
        _ => Seq::empty(),
    })
}

/// Walk the traced chain: at each type the dimensions are `array ++ width`,
/// and `k` counts completed selects. The expression of the k-th dimension, if
/// the chain has one.
pub open spec fn dim_from(chain: Seq<Type>, i: int, k: int) -> Option<Rc<Expression>>
    decreases chain.len() - i,
{
    if i < 0 || i >= chain.len() {
        Option::None
    } else {
        let t = chain[i];
        if k < t.array@.len() {
            Option::Some(t.array@[k])
        } else {
            let k2 = k - t.array@.len();
            if k2 < t.width@.len() {
                Option::Some(t.width@[k2])
            } else {
                dim_from(chain, i + 1, k2 - t.width@.len())
            }
        }
    }
}

/// The declared type a symbol offers for bit-selection: variables and ports
/// qualify, nothing else does.
pub open spec fn selectable_type(s: Symbol) -> Option<Type> {
    match s.kind {
        SymbolKind::Variable { ty, prefix: _, suffix: _ } => Option::Some(ty),
        SymbolKind::Port { ty, prefix: _, suffix: _ } => ty,
        _ => Option::None,
    }
}

/// What a valid `msb` at select depth `k` of the name `path` resolves to.
pub open spec fn resolve_msb(
    st: Seq<SymbolEntry>,
    path: Seq<usize>,
    ns: Seq<usize>,
    k: int,
) -> Option<Rc<Expression>> {
    match spec_resolve(st, path, ns) {
        Option::None => Option::None,
        Option::Some(i) => match selectable_type(st[i].symbol) {
            Option::None => Option::None,
            Option::Some(ty) => dim_from(
                trace_chain(st, ty, st[i].symbol.namespace@, st.len() as nat),
                0,
                k,
            ),
        },
    }
}

/// The stack with its top removed; the empty stack stays empty.
pub open spec fn drop_top<A>(s: Seq<A>) -> Seq<A> {
    if s.len() == 0 {
        s
    } else {
        s.drop_last()
    }
}

pub ghost struct CheckMsbLsbView {

    pub errors: Seq<AnalyzerError>,
    pub identifier_path: Seq<(Seq<usize>, Seq<usize>)>,
    pub select_dimension: Seq<usize>,
    pub in_expression_identifier: bool,
    pub in_select: bool,
}

/// One step of the handler: the state and MSB table after seeing `e`.
pub open spec fn msb_step_spec(
    s: CheckMsbLsbView,
    m: Map<u64, Rc<Expression>>,
    e: Event,
    st: Seq<SymbolEntry>,
    nt: Map<u64, Seq<usize>>,
) -> (CheckMsbLsbView, Map<u64, Rc<Expression>>) {
    match e {
        Event::EnterExprIdent(t) => (
            CheckMsbLsbView {
                identifier_path: s.identifier_path.push((Seq::empty(), nt[t.id])),
                select_dimension: s.select_dimension.push(0),
                in_expression_identifier: true,
                ..s
            },
            m,
        ),
        Event::LeaveExprIdent => (
            CheckMsbLsbView {
                identifier_path: drop_top(s.identifier_path),
                select_dimension: drop_top(s.select_dimension),
                in_expression_identifier: false,
                ..s
            },
            m,
        ),
        Event::Ident(t) => if s.in_expression_identifier && s.identifier_path.len() > 0 {
            let n = s.identifier_path.len() - 1;
            let top = s.identifier_path[n as int];
            (
                CheckMsbLsbView {
                    identifier_path: s.identifier_path.update(
                        n as int,
                        (top.0.push(t.text), top.1),
                    ),
                    ..s
                },
                m,
            )
        } else {
            (s, m)
        },
        Event::EnterSelect => (CheckMsbLsbView { in_select: true, ..s }, m),
        Event::LeaveSelect => {
            let s1 = CheckMsbLsbView { in_select: false, ..s };
            if s.in_expression_identifier && s.select_dimension.len() > 0 {
                let n = s.select_dimension.len() - 1;
                let d = s.select_dimension[n as int];
                let d2: usize = if d < usize::MAX {
                    (d + 1) as usize
                } else {
                    d
                };
                (
                    CheckMsbLsbView {
                        select_dimension: s.select_dimension.update(n as int, d2),
                        ..s1
                    },
                    m,
                )
            } else {
                (s1, m)
            }
        },
        Event::LsbKeyword(t) => if !(s.in_expression_identifier && s.in_select) {
            (
                CheckMsbLsbView { errors: s.errors.push(AnalyzerError::InvalidLsb { token: t }), ..s },
                m,
            )
        } else {
            (s, m)
        },
        Event::MsbKeyword(t) => if s.in_expression_identifier && s.in_select {
            if s.identifier_path.len() > 0 && s.select_dimension.len() > 0 {
                let top = s.identifier_path.last();
                let k = s.select_dimension.last();
                match resolve_msb(st, top.0, top.1, k as int) {
                    Option::Some(expr) => (s, m.insert(t.id, expr)),
                    Option::None => (
                        CheckMsbLsbView {
                            errors: s.errors.push(AnalyzerError::UnknownMsb { token: t }),
                            ..s
                        },
                        m,
                    ),
                }
            } else {
                (s, m)
            }
        } else {
            (
                CheckMsbLsbView { errors: s.errors.push(AnalyzerError::InvalidMsb { token: t }), ..s },
                m,
            )
        },
        _ => (s, m),
    }
}

/// The handler folded over an event stream, oldest event first.
pub open spec fn msb_run_spec(
    s: CheckMsbLsbView,
    m: Map<u64, Rc<Expression>>,
    es: Seq<Event>,
    st: Seq<SymbolEntry>,
    nt: Map<u64, Seq<usize>>,
) -> (CheckMsbLsbView, Map<u64, Rc<Expression>>)
    decreases es.len(),
{
    if es.len() == 0 {
        (s, m)
    } else {
        let r = msb_run_spec(s, m, es.drop_last(), st, nt);
        msb_step_spec(r.0, r.1, es.last(), st, nt)
    }
}

pub struct CheckMsbLsb {
    pub errors: Vec<AnalyzerError>,
    identifier_path: Vec<SymbolPathNamespace>,
    select_dimension: Vec<usize>,
    in_expression_identifier: bool,
    in_select: bool,
}

impl View for CheckMsbLsb {
    type V = CheckMsbLsbView;

    closed spec fn view(&self) -> CheckMsbLsbView {
        CheckMsbLsbView {
            errors: self.errors@,
            identifier_path: self.identifier_path@.map(
                |_i: int, p: SymbolPathNamespace| (p.path@, p.namespace@),
            ),
            select_dimension: self.select_dimension@,
            in_expression_identifier: self.in_expression_identifier,
            in_select: self.in_select,
        }
    }
}

impl CheckMsbLsb {
    pub open spec fn wf(&self) -> bool {
        &&& self@.identifier_path.len() == self@.select_dimension.len()
        &&& (self@.in_expression_identifier ==> self@.identifier_path.len() >= 1)
    }

    pub fn new() -> (r: CheckMsbLsb)
        ensures
            r.wf(),
            r@.errors.len() == 0,
            r@.identifier_path.len() == 0,
            r@.select_dimension.len() == 0,
            !r@.in_expression_identifier,
            !r@.in_select,
    {
        let r = CheckMsbLsb {
            errors: Vec::new(),
            identifier_path: Vec::new(),
            select_dimension: Vec::new(),
            in_expression_identifier: false,
            in_select: false,
        };
        assert(r@.identifier_path =~= Seq::<(Seq<usize>, Seq<usize>)>::empty());
        r
    }

    /// How many expression identifiers are currently open; zero at the end
    /// of a pass.
    pub fn open_depth(&self) -> (r: usize)
        ensures
            r == self@.identifier_path.len(),
    {
        self.identifier_path.len()
    }

    /// One callback of the walk.
    pub fn step(&mut self, e: &Event, st: &SymbolTable, nt: &NamespaceTable, msb: &mut MsbTable)
        requires
            old(self).wf(),
            st.wf(),
            nt.wf(),
            old(msb).wf(),
            match *e {
                Event::EnterExprIdent(t) => nt@.contains_key(t.id),
                _ => true,
            },
        ensures
            final(self).wf(),
            final(msb).wf(),
            (final(self)@, final(msb)@) == msb_step_spec(old(self)@, old(msb)@, *e, st@, nt@),
    {
        match e {
            Event::EnterExprIdent(t) => {
                let ns = match nt.get(t.id) {
                    Option::Some(ns) => ns.clone(),
                    Option::None => {
                        proof {
                            assert(false);
                        }
                        Vec::new()
                    },
                };
                self.identifier_path.push(
                    SymbolPathNamespace { path: Vec::new(), namespace: ns },
                );
                self.select_dimension.push(0);
                self.in_expression_identifier = true;
                proof {
                    assert(self@.identifier_path =~= msb_step_spec(
                        old(self)@,
                        old(msb)@,
                        *e,
                        st@,
                        nt@,
                    ).0.identifier_path);
                    assert(self@ == msb_step_spec(old(self)@, old(msb)@, *e, st@, nt@).0);
                }
            },
            Event::LeaveExprIdent => {
                let _ = self.identifier_path.pop();
                let _ = self.select_dimension.pop();
                self.in_expression_identifier = false;
                proof {
                    assert(self@.identifier_path =~= drop_top(old(self)@.identifier_path));
                    assert(self@.select_dimension =~= drop_top(old(self)@.select_dimension));
                    assert(self@ == msb_step_spec(old(self)@, old(msb)@, *e, st@, nt@).0);
                }
            },
            Event::Ident(t) => {
                if self.in_expression_identifier {
                    let n = self.identifier_path.len() - 1;
                    self.identifier_path[n].path.push(t.text);
                    proof {
                        assert(self@.identifier_path =~= msb_step_spec(
                            old(self)@,
                            old(msb)@,
                            *e,
                            st@,
                            nt@,
                        ).0.identifier_path);
                        assert(self@ == msb_step_spec(old(self)@, old(msb)@, *e, st@, nt@).0);
                    }
                }
            },
            Event::EnterSelect => {
                self.in_select = true;
            },
            Event::LeaveSelect => {
                self.in_select = false;
                if self.in_expression_identifier {
                    let n = self.select_dimension.len() - 1;
                    if self.select_dimension[n] < usize::MAX {
                        let d = self.select_dimension[n];
                        self.select_dimension[n] = d + 1;
                    }
                    proof {
                        assert(self@.select_dimension =~= msb_step_spec(
                            old(self)@,
                            old(msb)@,
                            *e,
                            st@,
                            nt@,
                        ).0.select_dimension);
                        assert(self@ == msb_step_spec(old(self)@, old(msb)@, *e, st@, nt@).0);
                    }
                }
            },
            Event::LsbKeyword(t) => {
                if !(self.in_expression_identifier && self.in_select) {
                    self.errors.push(AnalyzerError::InvalidLsb { token: *t });
                }
            },
            Event::MsbKeyword(t) => {
                if self.in_expression_identifier && self.in_select {
                    let n = self.identifier_path.len() - 1;
                    let resolved = self.resolve_msb_expr(n, st);
                    match resolved {
                        Option::Some(expr) => {
                            msb.insert(t.id, expr);
                        },
                        Option::None => {
                            self.errors.push(AnalyzerError::UnknownMsb { token: *t });
                        },
                    }
                } else {
                    self.errors.push(AnalyzerError::InvalidMsb { token: *t });
                }
            },
            _ => {},
        }
    }

    /// Resolve the accumulated name and select depth at stack top `n` to the
    /// upper-bound expression of the selected dimension.
    fn resolve_msb_expr(&self, n: usize, st: &SymbolTable) -> (r: Option<Rc<Expression>>)
        requires
            st.wf(),
            n + 1 == self@.identifier_path.len(),
            self@.identifier_path.len() == self@.select_dimension.len(),
        ensures
            r == resolve_msb(
                st@,
                self@.identifier_path.last().0,
                self@.identifier_path.last().1,
                self@.select_dimension.last() as int,
            ),
    {
        let top = &self.identifier_path[n];
        let k = self.select_dimension[n];
        let sym = match st.resolve(&top.path, &top.namespace) {
            Option::Some(s) => s,
            Option::None => {
                return None;
            },
        };
        let ty = match &sym.kind {
            SymbolKind::Variable { ty, prefix: _, suffix: _ } => ty,
            SymbolKind::Port { ty: tyo, prefix: _, suffix: _ } => {
                match tyo {
                    Option::Some(ty) => ty,
                    Option::None => {
                        return None;
                    },
                }
            },
            _ => {
                return None;
            },
        };
        let fuel = st.len();
        let types = trace_type(st, ty, &sym.namespace, fuel);
        proof {
            assert(types@.map(|_i: int, t: &Type| *t) == trace_chain(
                st@,
                *ty,
                sym.namespace@,
                fuel as nat,
            ));
        }
        select_dim_expr(&types, 0, k)
    }
}

/// The alias-unfolding trace of `ty`, as references into the symbol table.
/// Relies on the type DAG pass for cycle reporting: a cyclic alias chain is
/// truncated after `fuel` steps.
pub fn trace_type<'a>(st: &'a SymbolTable, ty: &'a Type, ns: &Vec<usize>, fuel: usize) -> (r: Vec<
    &'a Type,
>)
    requires
        st.wf(),
    ensures
        r@.map(|_i: int, t: &Type| *t) == trace_chain(st@, *ty, ns@, fuel as nat),
    decreases fuel,
{
    let mut r: Vec<&'a Type> = Vec::new();
    r.push(ty);
    let rest: Vec<&'a Type> = match &ty.kind {
        crate::symbol::TypeKind::UserDefined(p) => {
            if fuel == 0 {
                Vec::new()
            } else {
                match st.resolve(p, ns) {
                    Option::Some(sym) => match &sym.kind {
                        SymbolKind::TypeDef { ty: t2 } => trace_type(st, t2, ns, fuel - 1),
                        _ => Vec::new(),
                    },
                    Option::None => Vec::new(),
                }
            }
        },
        _ => Vec::new(),
    };
    let mut i: usize = 0;
    let ghost restseq = rest@;
    while i < rest.len()
        invariant
            rest@ == restseq,
            i <= rest@.len(),
            r@.len() == i + 1,
            r@[0] == ty,
            forall|j: int| 1 <= j < r@.len() ==> r@[j] == rest@[j - 1],
        decreases rest@.len() - i,
    {
        r.push(rest[i]);
        i += 1;
    }
    proof {
        assert(r@.map(|_i: int, t: &Type| *t) =~= trace_chain(st@, *ty, ns@, fuel as nat));
    }
    r
}

/// The k-th dimension expression of the traced chain, counting from entry `i`.
fn select_dim_expr(types: &Vec<&Type>, i: usize, k: usize) -> (r: Option<Rc<Expression>>)
    requires
        i <= types@.len(),
    ensures
        r == dim_from(types@.map(|_i: int, t: &Type| *t), i as int, k as int),
    decreases types@.len() - i,
{
    let ghost chain = types@.map(|_i: int, t: &Type| *t);
    if i >= types.len() {
        return None;
    }
    let t = types[i];
    proof {
        assert(chain[i as int] == *t);
    }
    if k < t.array.len() {
        Some(t.array[k].clone())
    } else {
        let k2 = k - t.array.len();
        if k2 < t.width.len() {
            Some(t.width[k2].clone())
        } else {
            select_dim_expr(types, i + 1, k2 - t.width.len())
        }
    }
}

/// Run the resolver over a whole source file.
pub fn check_msb_lsb_file(
    tree: &Veryl,
    st: &SymbolTable,
    nt: &NamespaceTable,
    msb: &mut MsbTable,
) -> (r: CheckMsbLsb)
    requires
        st.wf(),
        nt.wf(),
        old(msb).wf(),
        events_ns_ok(ev_veryl(*tree), nt@),
    ensures
        final(msb).wf(),
        r.wf(),
        ({
            let fresh = CheckMsbLsbView {
                errors: Seq::empty(),
                identifier_path: Seq::empty(),
                select_dimension: Seq::empty(),
                in_expression_identifier: false,
                in_select: false,
            };
            (r@, final(msb)@) == msb_run_spec(fresh, old(msb)@, ev_veryl(*tree), st@, nt@)
        }),
{
    let mut handler = CheckMsbLsb::new();
    let ghost fresh = handler@;
    proof {
        assert(fresh.errors =~= Seq::<AnalyzerError>::empty());
        assert(fresh.identifier_path =~= Seq::<(Seq<usize>, Seq<usize>)>::empty());
        assert(fresh.select_dimension =~= Seq::<usize>::empty());
    }
    let es = walk_events(tree);
    let n = es.len();
    let mut i: usize = 0;
    while i < n
        invariant
            st.wf(),
            nt.wf(),
            msb.wf(),
            handler.wf(),
            n == es@.len(),
            i <= n,
            es@ == ev_veryl(*tree),
            events_ns_ok(es@, nt@),
            fresh == (CheckMsbLsbView {
                errors: Seq::<AnalyzerError>::empty(),
                identifier_path: Seq::<(Seq<usize>, Seq<usize>)>::empty(),
                select_dimension: Seq::<usize>::empty(),
                in_expression_identifier: false,
                in_select: false,
            }),
            (handler@, msb@) == msb_run_spec(fresh, old(msb)@, es@.take(i as int), st@, nt@),
        decreases n - i,
    {
        let ghost pre = es@.take(i as int);
        handler.step(&es[i], st, nt, msb);
        proof {
            assert(es@.take(i + 1).drop_last() =~= pre);
            assert(es@.take(i + 1).last() == es@[i as int]);
        }
        i += 1;
    }
    proof {
        assert(es@.take(n as int) =~= es@);
    }
    handler
}

/// Every `msb` reached inside a select is either recorded in the MSB table or
/// diagnosed with `unknown_msb`, never both and never neither.
pub proof fn lemma_msb_recorded_or_diagnosed(
    s: CheckMsbLsbView,
    m: Map<u64, Rc<Expression>>,
    t: Token,
    st: Seq<SymbolEntry>,
    nt: Map<u64, Seq<usize>>,
)
    requires
        s.in_expression_identifier,
        s.in_select,
        s.identifier_path.len() > 0,
        s.identifier_path.len() == s.select_dimension.len(),
    ensures
        ({
            let (s2, m2) = msb_step_spec(s, m, Event::MsbKeyword(t), st, nt);
            match resolve_msb(st, s.identifier_path.last().0, s.identifier_path.last().1, s.select_dimension.last() as int) {
                Option::Some(e) => m2 == m.insert(t.id, e) && s2.errors == s.errors,
                Option::None => m2 == m && s2.errors == s.errors.push(
                    AnalyzerError::UnknownMsb { token: t },
                ),
            }
        }),
{
}

} // verus!
