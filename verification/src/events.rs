//! The walker: flattens a parse tree into the stream of callbacks a handler
//! observes, in source order. Entering a production yields its `Enter` event
//! and leaving it the matching `Leave` event, so the stream is balanced and
//! nested exactly as the tree is. `walk_events` is specified against
//! `ev_veryl`, the mathematical definition of the traversal.

use vstd::prelude::*;
use crate::token::Token;
use crate::tree::{
    ArrayDims, ArrayType, AssignDeclaration, CaseArm, CaseExpression, CommaExpression,
    ConstDeclaration, ConstTypeGroup, Description, EnumDeclaration, ExprOperand, Expression,
    ExpressionIdentifier, Factor, IdSegment, IdentifierStatement, ImportDeclaration,
    InstDeclaration, InstParameterItem, InstPortItem, InterfaceDeclaration, LetDeclaration,
    ModportDeclaration, ModuleDeclaration, ModuleItem, PackageDeclaration, PortDeclarationItem,
    PortTypeGroup, ScalarKind, ScalarType, ScopedIdentifier, ScopedIdentifierPart, Select,
    StructUnionDeclaration, SwitchExpression, TypeDefDeclaration, VarDeclaration, Veryl, Width,
    WithParameterItem,
};

verus! {

/// The declaration productions the type-DAG pass reacts to.
#[derive(Clone, Copy, Debug, PartialEq, Eq, Structural)]
pub enum DeclKind {
    Struct,
    Union,
    Enum,
    Modport,
    Module,
    Interface,
    Package,
    TypeDef,
    Const,
}

/// One callback of the walk, with the token payload a handler needs.
#[derive(Clone, Copy, Debug, PartialEq, Eq, Structural)]
pub enum Event {
    EnterExprIdent(Token),
    LeaveExprIdent,
    EnterSelect,
    LeaveSelect,
    EnterScopedId(Token),
    ScopedIdPart(Token),
    LeaveScopedId,
    Ident(Token),
    MsbKeyword(Token),
    LsbKeyword(Token),
    EnterDecl(DeclKind, Token),
    LeaveDecl(DeclKind),
}

pub open spec fn ev_scoped_parts(v: Vec<ScopedIdentifierPart>, i: int) -> Seq<Event>
    decreases v, v@.len() - i,
{
    if i < 0 || i >= v@.len() {
        Seq::empty()
    } else {
        seq![Event::ScopedIdPart(v@[i].identifier), Event::Ident(v@[i].identifier)]
            + ev_scoped_parts(v, i + 1)
    }
}

pub open spec fn ev_scoped_ref(s: ScopedIdentifier) -> Seq<Event>
    decreases s, 0int,
{
    seq![Event::EnterScopedId(s.first), Event::Ident(s.first)] + ev_scoped_parts(s.rest, 0)
        + seq![Event::LeaveScopedId]
}

pub open spec fn ev_expression(e: Expression) -> Seq<Event>
    decreases e, 1int,
{
    ev_factor(e.head) + ev_operands(e.tail, 0)
}

pub open spec fn ev_operands(v: Vec<ExprOperand>, i: int) -> Seq<Event>
    decreases v, v@.len() - i,
{
    if i < 0 || i >= v@.len() {
        Seq::empty()
    } else {
        ev_factor(v@[i].operand) + ev_operands(v, i + 1)
    }
}

pub open spec fn ev_factor(f: Factor) -> Seq<Event>
    decreases f, 1int,
{
    match f {
        Factor::Number(_) => Seq::empty(),
        Factor::ExprId(b) => ev_expr_ident(*b),
        Factor::MsbKeyword(t) => seq![Event::MsbKeyword(t)],
        Factor::LsbKeyword(t) => seq![Event::LsbKeyword(t)],
        Factor::Paren(_, b, _) => ev_expression(*b),
        Factor::CaseExpr(b) => ev_case_expr(*b),
        Factor::SwitchExpr(b) => ev_switch_expr(*b),
    }
}

pub open spec fn ev_comma_exprs(v: Vec<CommaExpression>, i: int) -> Seq<Event>
    decreases v, v@.len() - i,
{
    if i < 0 || i >= v@.len() {
        Seq::empty()
    } else {
        ev_expression(v@[i].expression) + ev_comma_exprs(v, i + 1)
    }
}

pub open spec fn ev_case_arms(v: Vec<CaseArm>, i: int) -> Seq<Event>
    decreases v, v@.len() - i,
{
    if i < 0 || i >= v@.len() {
        Seq::empty()
    } else {
        ev_expression(v@[i].condition) + ev_comma_exprs(v@[i].condition_rest, 0) + ev_expression(
            v@[i].expression,
        ) + ev_case_arms(v, i + 1)
    }
}

pub open spec fn ev_case_expr(c: CaseExpression) -> Seq<Event>
    decreases c, 1int,
{
    ev_expression(c.subject) + ev_case_arms(c.arms, 0) + ev_expression(c.default_expression)
}

pub open spec fn ev_switch_expr(c: SwitchExpression) -> Seq<Event>
    decreases c, 1int,
{
    ev_case_arms(c.arms, 0) + ev_expression(c.default_expression)
}

pub open spec fn ev_select(s: Select) -> Seq<Event>
    decreases s, 1int,
{
    seq![Event::EnterSelect] + ev_expression(s.expression) + (match s.select_opt {
        Option::Some(r) => ev_expression(r.expression),
        Option::None => Seq::empty(),
    }) + seq![Event::LeaveSelect]
}

pub open spec fn ev_selects(v: Vec<Select>, i: int) -> Seq<Event>
    decreases v, v@.len() - i,
{
    if i < 0 || i >= v@.len() {
        Seq::empty()
    } else {
        ev_select(v@[i]) + ev_selects(v, i + 1)
    }
}

pub open spec fn ev_segments(v: Vec<IdSegment>, i: int) -> Seq<Event>
    decreases v, v@.len() - i,
{
    if i < 0 || i >= v@.len() {
        Seq::empty()
    } else {
        seq![Event::Ident(v@[i].identifier)] + ev_selects(v@[i].selects, 0) + ev_segments(v, i + 1)
    }
}

pub open spec fn ev_expr_ident(x: ExpressionIdentifier) -> Seq<Event>
    decreases x, 1int,
{
    seq![Event::EnterExprIdent(x.head.first)] + ev_scoped_ref(x.head) + ev_selects(
        x.head_selects,
        0,
    ) + ev_segments(x.rest, 0) + seq![Event::LeaveExprIdent]
}

pub open spec fn ev_width(w: Width) -> Seq<Event>
    decreases w, 1int,
{
    ev_expression(w.expression) + ev_comma_exprs(w.rest, 0)
}

pub open spec fn ev_array_dims(a: ArrayDims) -> Seq<Event>
    decreases a, 1int,
{
    ev_expression(a.expression) + ev_comma_exprs(a.rest, 0)
}

pub open spec fn ev_scalar_type(s: ScalarType) -> Seq<Event>
    decreases s, 1int,
{
    match s.kind {
        ScalarKind::UserDefined { identifier, width } => ev_scoped_ref(identifier) + (match width {
            Option::Some(w) => ev_width(w),
            Option::None => Seq::empty(),
        }),
        ScalarKind::Variable { token: _, kind: _, width } => match width {
            Option::Some(w) => ev_width(w),
            Option::None => Seq::empty(),
        },
        ScalarKind::Fixed { token: _, kind: _ } => Seq::empty(),
    }
}

pub open spec fn ev_array_type(a: ArrayType) -> Seq<Event>
    decreases a, 1int,
{
    ev_scalar_type(a.scalar) + (match a.array {
        Option::Some(d) => ev_array_dims(d),
        Option::None => Seq::empty(),
    })
}

pub open spec fn ev_const_ty(c: ConstTypeGroup) -> Seq<Event>
    decreases c, 1int,
{
    match c {
        ConstTypeGroup::Arr(a) => ev_array_type(a),
        ConstTypeGroup::TypeKeyword(_) => Seq::empty(),
    }
}

pub open spec fn ev_statements(v: Vec<IdentifierStatement>, i: int) -> Seq<Event>
    decreases v, v@.len() - i,
{
    if i < 0 || i >= v@.len() {
        Seq::empty()
    } else {
        ev_expr_ident(v@[i].target) + ev_expression(v@[i].expression) + ev_statements(v, i + 1)
    }
}

pub open spec fn ev_inst_params(v: Vec<InstParameterItem>, i: int) -> Seq<Event>
    decreases v, v@.len() - i,
{
    if i < 0 || i >= v@.len() {
        Seq::empty()
    } else {
        (match v@[i].value {
            Option::Some(ce) => ev_expression(ce.expression),
            Option::None => Seq::empty(),
        }) + ev_inst_params(v, i + 1)
    }
}

pub open spec fn ev_inst_ports(v: Vec<InstPortItem>, i: int) -> Seq<Event>
    decreases v, v@.len() - i,
{
    if i < 0 || i >= v@.len() {
        Seq::empty()
    } else {
        (match v@[i].value {
            Option::Some(ce) => ev_expression(ce.expression),
            Option::None => Seq::empty(),
        }) + ev_inst_ports(v, i + 1)
    }
}

pub open spec fn ev_module_item(m: ModuleItem) -> Seq<Event>
    decreases m, 2int,
{
    match m {
        ModuleItem::Let(d) => ev_array_type(d.ty) + ev_expression(d.expression),
        ModuleItem::Var(d) => ev_array_type(d.ty),
        ModuleItem::Const(d) => seq![Event::EnterDecl(DeclKind::Const, d.identifier)] + ev_const_ty(
            d.ty,
        ) + ev_expression(d.expression) + seq![Event::LeaveDecl(DeclKind::Const)],
        ModuleItem::TypeDef(d) => seq![Event::EnterDecl(DeclKind::TypeDef, d.identifier)]
            + ev_array_type(d.ty) + seq![Event::LeaveDecl(DeclKind::TypeDef)],
        ModuleItem::Assign(d) => ev_expr_ident(d.target) + ev_expression(d.expression),
        ModuleItem::StructUnion(d) => ev_struct_union(d),
        ModuleItem::Enum(d) => seq![
            Event::EnterDecl(DeclKind::Enum, d.identifier),
            Event::LeaveDecl(DeclKind::Enum),
        ],
        ModuleItem::Modport(d) => seq![
            Event::EnterDecl(DeclKind::Modport, d.identifier),
            Event::LeaveDecl(DeclKind::Modport),
        ],
        ModuleItem::Inst(d) => ev_inst(d),
        ModuleItem::Always(d) => ev_statements(d.statements, 0),
        ModuleItem::Import(d) => ev_scoped_ref(d.target),
    }
}

pub open spec fn ev_struct_items(v: Vec<crate::tree::StructUnionItem>, i: int) -> Seq<Event>
    decreases v, v@.len() - i,
{
    if i < 0 || i >= v@.len() {
        Seq::empty()
    } else {
        ev_scalar_type(v@[i].ty) + ev_struct_items(v, i + 1)
    }
}

pub open spec fn ev_struct_union(d: StructUnionDeclaration) -> Seq<Event>
    decreases d, 1int,
{
    seq![
        Event::EnterDecl(
            if d.is_union {
                DeclKind::Union
            } else {
                DeclKind::Struct
            },
            d.identifier,
        ),
    ] + ev_struct_items(d.items, 0) + seq![
        Event::LeaveDecl(
            if d.is_union {
                DeclKind::Union
            } else {
                DeclKind::Struct
            },
        ),
    ]
}

pub open spec fn ev_inst(d: InstDeclaration) -> Seq<Event>
    decreases d, 1int,
{
    ev_scoped_ref(d.target) + (match d.array {
        Option::Some(a) => ev_array_dims(a),
        Option::None => Seq::empty(),
    }) + (match d.parameters {
        Option::Some(p) => ev_inst_params(p.items, 0),
        Option::None => Seq::empty(),
    }) + (match d.ports {
        Option::Some(p) => ev_inst_ports(p.items, 0),
        Option::None => Seq::empty(),
    })
}

pub open spec fn ev_param_items(v: Vec<WithParameterItem>, i: int) -> Seq<Event>
    decreases v, v@.len() - i,
{
    if i < 0 || i >= v@.len() {
        Seq::empty()
    } else {
        ev_const_ty(v@[i].ty) + ev_expression(v@[i].expression) + ev_param_items(v, i + 1)
    }
}

pub open spec fn ev_port_items(v: Vec<PortDeclarationItem>, i: int) -> Seq<Event>
    decreases v, v@.len() - i,
{
    if i < 0 || i >= v@.len() {
        Seq::empty()
    } else {
        (match v@[i].port {
            PortTypeGroup::Concrete { direction: _, clock_domain: _, ty } => ev_array_type(ty),
            PortTypeGroup::Abstract { clock_domain: _, interface: _, array } => match array {
                Option::Some(a) => ev_array_dims(a),
                Option::None => Seq::empty(),
            },
        }) + ev_port_items(v, i + 1)
    }
}

pub open spec fn ev_module_items(v: Vec<ModuleItem>, i: int) -> Seq<Event>
    decreases v, v@.len() - i,
{
    if i < 0 || i >= v@.len() {
        Seq::empty()
    } else {
        ev_module_item(v@[i]) + ev_module_items(v, i + 1)
    }
}

pub open spec fn ev_module(d: ModuleDeclaration) -> Seq<Event>
    decreases d, 1int,
{
    seq![Event::EnterDecl(DeclKind::Module, d.identifier)] + (match d.parameters {
        Option::Some(p) => ev_param_items(p.items, 0),
        Option::None => Seq::empty(),
    }) + (match d.ports {
        Option::Some(p) => ev_port_items(p.items, 0),
        Option::None => Seq::empty(),
    }) + ev_module_items(d.items, 0) + seq![Event::LeaveDecl(DeclKind::Module)]
}

pub open spec fn ev_interface(d: InterfaceDeclaration) -> Seq<Event>
    decreases d, 1int,
{
    seq![Event::EnterDecl(DeclKind::Interface, d.identifier)] + (match d.parameters {
        Option::Some(p) => ev_param_items(p.items, 0),
        Option::None => Seq::empty(),
    }) + ev_module_items(d.items, 0) + seq![Event::LeaveDecl(DeclKind::Interface)]
}

pub open spec fn ev_package(d: PackageDeclaration) -> Seq<Event>
    decreases d, 1int,
{
    seq![Event::EnterDecl(DeclKind::Package, d.identifier)] + ev_module_items(d.items, 0) + seq![
        Event::LeaveDecl(DeclKind::Package),
    ]
}

pub open spec fn ev_description(d: Description) -> Seq<Event>
    decreases d, 2int,
{
    match d {
        Description::Module(m) => ev_module(m),
        Description::Interface(m) => ev_interface(m),
        Description::Package(m) => ev_package(m),
        Description::Import(m) => ev_scoped_ref(m.target),
    }
}

pub open spec fn ev_descriptions(v: Vec<Description>, i: int) -> Seq<Event>
    decreases v, v@.len() - i,
{
    if i < 0 || i >= v@.len() {
        Seq::empty()
    } else {
        ev_description(v@[i]) + ev_descriptions(v, i + 1)
    }
}

/// The full walk of one source file, in source order.
pub open spec fn ev_veryl(t: Veryl) -> Seq<Event>
    decreases t, 1int,
{
    ev_descriptions(t.descriptions, 0)
}

/// One source file flattened to its walk, in source order.
pub fn walk_events(t: &Veryl) -> (r: Vec<Event>)
    ensures
        r@ == ev_veryl(*t),
{
    let mut out: Vec<Event> = Vec::new();
    push_descriptions(&t.descriptions, 0, &mut out);
    proof {
        assert(out@ =~= ev_veryl(*t));
    }
    out
}

fn push_descriptions(v: &Vec<Description>, i: usize, out: &mut Vec<Event>)
    requires
        i <= v@.len(),
    ensures
        final(out)@ == old(out)@ + ev_descriptions(*v, i as int),
    decreases *v, v@.len() - i,
{
    if i < v.len() {
        match &v[i] {
            Description::Module(m) => push_module(m, out),
            Description::Interface(m) => push_interface(m, out),
            Description::Package(m) => push_package(m, out),
            Description::Import(m) => push_scoped_ref(&m.target, out),
        }
        push_descriptions(v, i + 1, out);
    }
    proof {
        assert(out@ =~= old(out)@ + ev_descriptions(*v, i as int));
    }
}

fn push_scoped_parts(v: &Vec<ScopedIdentifierPart>, i: usize, out: &mut Vec<Event>)
    requires
        i <= v@.len(),
    ensures
        final(out)@ == old(out)@ + ev_scoped_parts(*v, i as int),
    decreases *v, v@.len() - i,
{
    if i < v.len() {
        out.push(Event::ScopedIdPart(v[i].identifier));
        out.push(Event::Ident(v[i].identifier));
        push_scoped_parts(v, i + 1, out);
    }
    proof {
        assert(out@ =~= old(out)@ + ev_scoped_parts(*v, i as int));
    }
}

fn push_scoped_ref(s: &ScopedIdentifier, out: &mut Vec<Event>)
    ensures
        final(out)@ == old(out)@ + ev_scoped_ref(*s),
    decreases *s, 0int,
{
    out.push(Event::EnterScopedId(s.first));
    out.push(Event::Ident(s.first));
    push_scoped_parts(&s.rest, 0, out);
    out.push(Event::LeaveScopedId);
    proof {
        assert(out@ =~= old(out)@ + ev_scoped_ref(*s));
    }
}

fn push_expression(e: &Expression, out: &mut Vec<Event>)
    ensures
        final(out)@ == old(out)@ + ev_expression(*e),
    decreases *e, 1int,
{
    push_factor(&e.head, out);
    push_operands(&e.tail, 0, out);
    proof {
        assert(out@ =~= old(out)@ + ev_expression(*e));
    }
}

fn push_operands(v: &Vec<ExprOperand>, i: usize, out: &mut Vec<Event>)
    requires
        i <= v@.len(),
    ensures
        final(out)@ == old(out)@ + ev_operands(*v, i as int),
    decreases *v, v@.len() - i,
{
    if i < v.len() {
        push_factor(&v[i].operand, out);
        push_operands(v, i + 1, out);
    }
    proof {
        assert(out@ =~= old(out)@ + ev_operands(*v, i as int));
    }
}

fn push_factor(f: &Factor, out: &mut Vec<Event>)
    ensures
        final(out)@ == old(out)@ + ev_factor(*f),
    decreases *f, 1int,
{
    match f {
        Factor::Number(_) => {},
        Factor::ExprId(b) => push_expr_ident(&*b, out),
        Factor::MsbKeyword(t) => out.push(Event::MsbKeyword(*t)),
        Factor::LsbKeyword(t) => out.push(Event::LsbKeyword(*t)),
        Factor::Paren(_, b, _) => push_expression(&*b, out),
        Factor::CaseExpr(b) => push_case_expr(&*b, out),
        Factor::SwitchExpr(b) => push_switch_expr(&*b, out),
    }
    proof {
        assert(out@ =~= old(out)@ + ev_factor(*f));
    }
}

fn push_comma_exprs(v: &Vec<CommaExpression>, i: usize, out: &mut Vec<Event>)
    requires
        i <= v@.len(),
    ensures
        final(out)@ == old(out)@ + ev_comma_exprs(*v, i as int),
    decreases *v, v@.len() - i,
{
    if i < v.len() {
        push_expression(&v[i].expression, out);
        push_comma_exprs(v, i + 1, out);
    }
    proof {
        assert(out@ =~= old(out)@ + ev_comma_exprs(*v, i as int));
    }
}

fn push_case_arms(v: &Vec<CaseArm>, i: usize, out: &mut Vec<Event>)
    requires
        i <= v@.len(),
    ensures
        final(out)@ == old(out)@ + ev_case_arms(*v, i as int),
    decreases *v, v@.len() - i,
{
    if i < v.len() {
        push_expression(&v[i].condition, out);
        push_comma_exprs(&v[i].condition_rest, 0, out);
        push_expression(&v[i].expression, out);
        push_case_arms(v, i + 1, out);
    }
    proof {
        assert(out@ =~= old(out)@ + ev_case_arms(*v, i as int));
    }
}

fn push_case_expr(c: &CaseExpression, out: &mut Vec<Event>)
    ensures
        final(out)@ == old(out)@ + ev_case_expr(*c),
    decreases *c, 1int,
{
    push_expression(&c.subject, out);
    push_case_arms(&c.arms, 0, out);
    push_expression(&c.default_expression, out);
    proof {
        assert(out@ =~= old(out)@ + ev_case_expr(*c));
    }
}

fn push_switch_expr(c: &SwitchExpression, out: &mut Vec<Event>)
    ensures
        final(out)@ == old(out)@ + ev_switch_expr(*c),
    decreases *c, 1int,
{
    push_case_arms(&c.arms, 0, out);
    push_expression(&c.default_expression, out);
    proof {
        assert(out@ =~= old(out)@ + ev_switch_expr(*c));
    }
}

fn push_select(s: &Select, out: &mut Vec<Event>)
    ensures
        final(out)@ == old(out)@ + ev_select(*s),
    decreases *s, 1int,
{
    out.push(Event::EnterSelect);
    push_expression(&s.expression, out);
    match &s.select_opt {
        Option::Some(r) => push_expression(&r.expression, out),
        Option::None => {},
    }
    out.push(Event::LeaveSelect);
    proof {
        assert(out@ =~= old(out)@ + ev_select(*s));
    }
}

fn push_selects(v: &Vec<Select>, i: usize, out: &mut Vec<Event>)
    requires
        i <= v@.len(),
    ensures
        final(out)@ == old(out)@ + ev_selects(*v, i as int),
    decreases *v, v@.len() - i,
{
    if i < v.len() {
        push_select(&v[i], out);
        push_selects(v, i + 1, out);
    }
    proof {
        assert(out@ =~= old(out)@ + ev_selects(*v, i as int));
    }
}

fn push_segments(v: &Vec<IdSegment>, i: usize, out: &mut Vec<Event>)
    requires
        i <= v@.len(),
    ensures
        final(out)@ == old(out)@ + ev_segments(*v, i as int),
    decreases *v, v@.len() - i,
{
    if i < v.len() {
        out.push(Event::Ident(v[i].identifier));
        push_selects(&v[i].selects, 0, out);
        push_segments(v, i + 1, out);
    }
    proof {
        assert(out@ =~= old(out)@ + ev_segments(*v, i as int));
    }
}

fn push_expr_ident(x: &ExpressionIdentifier, out: &mut Vec<Event>)
    ensures
        final(out)@ == old(out)@ + ev_expr_ident(*x),
    decreases *x, 1int,
{
    out.push(Event::EnterExprIdent(x.head.first));
    push_scoped_ref(&x.head, out);
    push_selects(&x.head_selects, 0, out);
    push_segments(&x.rest, 0, out);
    out.push(Event::LeaveExprIdent);
    proof {
        assert(out@ =~= old(out)@ + ev_expr_ident(*x));
    }
}

fn push_width(w: &Width, out: &mut Vec<Event>)
    ensures
        final(out)@ == old(out)@ + ev_width(*w),
    decreases *w, 1int,
{
    push_expression(&w.expression, out);
    push_comma_exprs(&w.rest, 0, out);
    proof {
        assert(out@ =~= old(out)@ + ev_width(*w));
    }
}

fn push_array_dims(a: &ArrayDims, out: &mut Vec<Event>)
    ensures
        final(out)@ == old(out)@ + ev_array_dims(*a),
    decreases *a, 1int,
{
    push_expression(&a.expression, out);
    push_comma_exprs(&a.rest, 0, out);
    proof {
        assert(out@ =~= old(out)@ + ev_array_dims(*a));
    }
}

fn push_scalar_type(s: &ScalarType, out: &mut Vec<Event>)
    ensures
        final(out)@ == old(out)@ + ev_scalar_type(*s),
    decreases *s, 1int,
{
    match &s.kind {
        ScalarKind::UserDefined { identifier, width } => {
            push_scoped_ref(identifier, out);
            match width {
                Option::Some(w) => push_width(w, out),
                Option::None => {},
            }
        },
        ScalarKind::Variable { token: _, kind: _, width } => {
            match width {
                Option::Some(w) => push_width(w, out),
                Option::None => {},
            }
        },
        ScalarKind::Fixed { token: _, kind: _ } => {},
    }
    proof {
        assert(out@ =~= old(out)@ + ev_scalar_type(*s));
    }
}

fn push_array_type(a: &ArrayType, out: &mut Vec<Event>)
    ensures
        final(out)@ == old(out)@ + ev_array_type(*a),
    decreases *a, 1int,
{
    push_scalar_type(&a.scalar, out);
    match &a.array {
        Option::Some(d) => push_array_dims(d, out),
        Option::None => {},
    }
    proof {
        assert(out@ =~= old(out)@ + ev_array_type(*a));
    }
}

fn push_const_ty(c: &ConstTypeGroup, out: &mut Vec<Event>)
    ensures
        final(out)@ == old(out)@ + ev_const_ty(*c),
    decreases *c, 1int,
{
    match c {
        ConstTypeGroup::Arr(a) => push_array_type(a, out),
        ConstTypeGroup::TypeKeyword(_) => {},
    }
    proof {
        assert(out@ =~= old(out)@ + ev_const_ty(*c));
    }
}

fn push_statements(v: &Vec<IdentifierStatement>, i: usize, out: &mut Vec<Event>)
    requires
        i <= v@.len(),
    ensures
        final(out)@ == old(out)@ + ev_statements(*v, i as int),
    decreases *v, v@.len() - i,
{
    if i < v.len() {
        push_expr_ident(&v[i].target, out);
        push_expression(&v[i].expression, out);
        push_statements(v, i + 1, out);
    }
    proof {
        assert(out@ =~= old(out)@ + ev_statements(*v, i as int));
    }
}

fn push_inst_params(v: &Vec<InstParameterItem>, i: usize, out: &mut Vec<Event>)
    requires
        i <= v@.len(),
    ensures
        final(out)@ == old(out)@ + ev_inst_params(*v, i as int),
    decreases *v, v@.len() - i,
{
    if i < v.len() {
        match &v[i].value {
            Option::Some(ce) => push_expression(&ce.expression, out),
            Option::None => {},
        }
        push_inst_params(v, i + 1, out);
    }
    proof {
        assert(out@ =~= old(out)@ + ev_inst_params(*v, i as int));
    }
}

fn push_inst_ports(v: &Vec<InstPortItem>, i: usize, out: &mut Vec<Event>)
    requires
        i <= v@.len(),
    ensures
        final(out)@ == old(out)@ + ev_inst_ports(*v, i as int),
    decreases *v, v@.len() - i,
{
    if i < v.len() {
        match &v[i].value {
            Option::Some(ce) => push_expression(&ce.expression, out),
            Option::None => {},
        }
        push_inst_ports(v, i + 1, out);
    }
    proof {
        assert(out@ =~= old(out)@ + ev_inst_ports(*v, i as int));
    }
}

fn push_struct_items(v: &Vec<crate::tree::StructUnionItem>, i: usize, out: &mut Vec<Event>)
    requires
        i <= v@.len(),
    ensures
        final(out)@ == old(out)@ + ev_struct_items(*v, i as int),
    decreases *v, v@.len() - i,
{
    if i < v.len() {
        push_scalar_type(&v[i].ty, out);
        push_struct_items(v, i + 1, out);
    }
    proof {
        assert(out@ =~= old(out)@ + ev_struct_items(*v, i as int));
    }
}

fn push_module_item(m: &ModuleItem, out: &mut Vec<Event>)
    ensures
        final(out)@ == old(out)@ + ev_module_item(*m),
    decreases *m, 2int,
{
    match m {
        ModuleItem::Let(d) => {
            push_array_type(&d.ty, out);
            push_expression(&d.expression, out);
        },
        ModuleItem::Var(d) => push_array_type(&d.ty, out),
        ModuleItem::Const(d) => {
            out.push(Event::EnterDecl(DeclKind::Const, d.identifier));
            push_const_ty(&d.ty, out);
            push_expression(&d.expression, out);
            out.push(Event::LeaveDecl(DeclKind::Const));
        },
        ModuleItem::TypeDef(d) => {
            out.push(Event::EnterDecl(DeclKind::TypeDef, d.identifier));
            push_array_type(&d.ty, out);
            out.push(Event::LeaveDecl(DeclKind::TypeDef));
        },
        ModuleItem::Assign(d) => {
            push_expr_ident(&d.target, out);
            push_expression(&d.expression, out);
        },
        ModuleItem::StructUnion(d) => {
            if d.is_union {
                out.push(Event::EnterDecl(DeclKind::Union, d.identifier));
            } else {
                out.push(Event::EnterDecl(DeclKind::Struct, d.identifier));
            }
            push_struct_items(&d.items, 0, out);
            if d.is_union {
                out.push(Event::LeaveDecl(DeclKind::Union));
            } else {
                out.push(Event::LeaveDecl(DeclKind::Struct));
            }
        },
        ModuleItem::Enum(d) => {
            out.push(Event::EnterDecl(DeclKind::Enum, d.identifier));
            out.push(Event::LeaveDecl(DeclKind::Enum));
        },
        ModuleItem::Modport(d) => {
            out.push(Event::EnterDecl(DeclKind::Modport, d.identifier));
            out.push(Event::LeaveDecl(DeclKind::Modport));
        },
        ModuleItem::Inst(d) => {
            push_scoped_ref(&d.target, out);
            match &d.array {
                Option::Some(a) => push_array_dims(a, out),
                Option::None => {},
            }
            match &d.parameters {
                Option::Some(p) => push_inst_params(&p.items, 0, out),
                Option::None => {},
            }
            match &d.ports {
                Option::Some(p) => push_inst_ports(&p.items, 0, out),
                Option::None => {},
            }
        },
        ModuleItem::Always(d) => push_statements(&d.statements, 0, out),
        ModuleItem::Import(d) => push_scoped_ref(&d.target, out),
    }
    proof {
        assert(out@ =~= old(out)@ + ev_module_item(*m));
    }
}

fn push_param_items(v: &Vec<WithParameterItem>, i: usize, out: &mut Vec<Event>)
    requires
        i <= v@.len(),
    ensures
        final(out)@ == old(out)@ + ev_param_items(*v, i as int),
    decreases *v, v@.len() - i,
{
    if i < v.len() {
        push_const_ty(&v[i].ty, out);
        push_expression(&v[i].expression, out);
        push_param_items(v, i + 1, out);
    }
    proof {
        assert(out@ =~= old(out)@ + ev_param_items(*v, i as int));
    }
}

fn push_port_items(v: &Vec<PortDeclarationItem>, i: usize, out: &mut Vec<Event>)
    requires
        i <= v@.len(),
    ensures
        final(out)@ == old(out)@ + ev_port_items(*v, i as int),
    decreases *v, v@.len() - i,
{
    if i < v.len() {
        match &v[i].port {
            PortTypeGroup::Concrete { direction: _, clock_domain: _, ty } => {
                push_array_type(ty, out);
            },
            PortTypeGroup::Abstract { clock_domain: _, interface: _, array } => {
                match array {
                    Option::Some(a) => push_array_dims(a, out),
                    Option::None => {},
                }
            },
        }
        push_port_items(v, i + 1, out);
    }
    proof {
        assert(out@ =~= old(out)@ + ev_port_items(*v, i as int));
    }
}

fn push_module_items(v: &Vec<ModuleItem>, i: usize, out: &mut Vec<Event>)
    requires
        i <= v@.len(),
    ensures
        final(out)@ == old(out)@ + ev_module_items(*v, i as int),
    decreases *v, v@.len() - i,
{
    if i < v.len() {
        push_module_item(&v[i], out);
        push_module_items(v, i + 1, out);
    }
    proof {
        assert(out@ =~= old(out)@ + ev_module_items(*v, i as int));
    }
}

fn push_module(d: &ModuleDeclaration, out: &mut Vec<Event>)
    ensures
        final(out)@ == old(out)@ + ev_module(*d),
    decreases *d, 1int,
{
    out.push(Event::EnterDecl(DeclKind::Module, d.identifier));
    match &d.parameters {
        Option::Some(p) => push_param_items(&p.items, 0, out),
        Option::None => {},
    }
    match &d.ports {
        Option::Some(p) => push_port_items(&p.items, 0, out),
        Option::None => {},
    }
    push_module_items(&d.items, 0, out);
    out.push(Event::LeaveDecl(DeclKind::Module));
    proof {
        assert(out@ =~= old(out)@ + ev_module(*d));
    }
}

fn push_interface(d: &InterfaceDeclaration, out: &mut Vec<Event>)
    ensures
        final(out)@ == old(out)@ + ev_interface(*d),
    decreases *d, 1int,
{
    out.push(Event::EnterDecl(DeclKind::Interface, d.identifier));
    match &d.parameters {
        Option::Some(p) => push_param_items(&p.items, 0, out),
        Option::None => {},
    }
    push_module_items(&d.items, 0, out);
    out.push(Event::LeaveDecl(DeclKind::Interface));
    proof {
        assert(out@ =~= old(out)@ + ev_interface(*d));
    }
}

fn push_package(d: &PackageDeclaration, out: &mut Vec<Event>)
    ensures
        final(out)@ == old(out)@ + ev_package(*d),
    decreases *d, 1int,
{
    out.push(Event::EnterDecl(DeclKind::Package, d.identifier));
    push_module_items(&d.items, 0, out);
    out.push(Event::LeaveDecl(DeclKind::Package));
    proof {
        assert(out@ =~= old(out)@ + ev_package(*d));
    }
}

/// Every identifier that opens an expression identifier, a scoped identifier
/// or a declaration has a namespace recorded for its token: the namespace
/// table is populated by an earlier pass.
pub open spec fn events_ns_ok(es: Seq<Event>, nt: Map<u64, Seq<usize>>) -> bool {
    forall|i: int|
        0 <= i < es.len() ==> match #[trigger] es[i] {
            Event::EnterExprIdent(t) => nt.contains_key(t.id),
            Event::EnterScopedId(t) => nt.contains_key(t.id),
            Event::EnterDecl(_, t) => nt.contains_key(t.id),
            _ => true,
        }
}

} // verus!
