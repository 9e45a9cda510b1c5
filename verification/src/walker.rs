//! The engine's walk over the parse tree: for every production that lays out
//! a colon-separated column, the walk brackets each column cell with
//! `start_item`/`finish_item` of the right alignment kind. One walk serves
//! both emitter and formatter; in emitter mode tokens are measured at their
//! rendered width (keyword substitutions, identifier prefixes and suffixes),
//! in formatter mode verbatim, with the extra clock-domain column.
//!
//! Every walk function carries a functional contract: the cell operations it
//! performs equal its `ops_*` mirror, a spec-level operation stream derived
//! from the production alone (plus the mode, the build options and the two
//! lookup tables). The engine's per-operation contracts in `engine` and
//! `align` then fix what each recorded operation does to the accumulators.

use vstd::prelude::*;
use vstd::string::StrSliceExecFns;
use crate::align::{add_sat32, lookup, sat32, sat64, spec_token, LocMap, Location};
use crate::engine::{
    AlignSet, MeasureOp, KIND_ARRAY, KIND_ASSIGNMENT, KIND_CLOCK_DOMAIN, KIND_DIRECTION,
    KIND_EXPRESSION, KIND_IDENTIFIER, KIND_PARAMETER, KIND_TYPE, KIND_WIDTH, NUM_KINDS,
};
use crate::symbol::{spec_resolve, SymbolEntry, SymbolKind, SymbolTable};
use crate::tables::NamespaceTable;
use crate::token::Token;
use crate::tree::{
    ArrayDims, ArrayType, AssignDeclaration, CaseArm, CaseExpression, CommaExpression,
    ConstDeclaration, ConstTypeGroup, Description, Direction, EnumDeclaration, ExprOperand,
    Expression, ExpressionIdentifier, Factor, FixedKind, IdSegment, IdentifierStatement,
    ImportDeclaration, InstDeclaration, InstParameterItem, InstPortItem, InterfaceDeclaration,
    LetDeclaration, ModportDeclaration, ModportItem, ModuleDeclaration, ModuleItem,
    PackageDeclaration, PortDeclarationItem, PortTypeGroup, ScalarKind, ScalarType,
    ScopedIdentifier, Select, StructUnionDeclaration, StructUnionItem, SwitchExpression,
    TypeDefDeclaration, VarDeclaration, VariableKind, Veryl, Width, WithParameterItem,
};

verus! {

/// The built-in scalar kinds a build may declare implicit for parameters.
#[derive(Clone, Copy, Debug, PartialEq, Eq, Structural)]
pub enum BuiltinType {
    U32,
    U64,
    I32,
    I64,
    F32,
    F64,
    Str,
    Type,
}

/// Build options the emitter walk consults.
pub struct Build {
    pub implicit_parameter_types: Vec<BuiltinType>,
}

/// The per-project configuration surface of the emitter.
pub struct Metadata {
    pub project_name: String,
    pub build: Build,
}

/// Rendered width of a built-in variable type in emitter output: the clock
/// and reset families become `logic`.
fn variable_len(k: VariableKind, t: Token) -> (r: u32)
    ensures
        r == spec_variable_len(k, t),
{
    match k {
        VariableKind::Logic => t.length,
        VariableKind::Bit => t.length,
        _ => 5,
    }
}

pub open spec fn spec_variable_len(k: VariableKind, t: Token) -> u32 {
    match k {
        VariableKind::Logic => t.length,
        VariableKind::Bit => t.length,
        _ => 5u32,
    }
}

/// Rendered width of a built-in fixed type in emitter output.
fn fixed_len(k: FixedKind, t: Token) -> (r: u32)
    ensures
        r == spec_fixed_len(k, t),
{
    match k {
        FixedKind::U32 => 12,
        FixedKind::U64 => 16,
        FixedKind::I32 => 10,
        FixedKind::I64 => 14,
        FixedKind::F32 => 9,
        FixedKind::F64 => 4,
        FixedKind::Str => t.length,
    }
}

pub open spec fn spec_fixed_len(k: FixedKind, t: Token) -> u32 {
    match k {
        FixedKind::U32 => 12u32,
        FixedKind::U64 => 16u32,
        FixedKind::I32 => 10u32,
        FixedKind::I64 => 14u32,
        FixedKind::F32 => 9u32,
        FixedKind::F64 => 4u32,
        FixedKind::Str => t.length,
    }
}

/// A character count clamped into a width.
pub open spec fn clamp_len(n: nat) -> u32 {
    if n > 0xffff_ffff {
        0xffff_ffffu32
    } else {
        n as u32
    }
}

/// The extra rendered width an identifier gains from its resolved symbol's
/// prefix and suffix; a missing namespace or symbol contributes none.
pub open spec fn spec_ps_extra(st: Seq<SymbolEntry>, nt: Map<u64, Seq<usize>>, t: Token) -> u32 {
    if !nt.contains_key(t.id) {
        0u32
    } else {
        match spec_resolve(st, seq![t.text], nt[t.id]) {
            Option::None => 0u32,
            Option::Some(i) => match st[i].symbol.kind {
                SymbolKind::Port { ty: _, prefix, suffix } => sat32(
                    match prefix {
                        Option::Some(p) => clamp_len(p@.len()),
                        Option::None => 0u32,
                    },
                    match suffix {
                        Option::Some(x) => clamp_len(x@.len()),
                        Option::None => 0u32,
                    },
                ),
                SymbolKind::Variable { ty: _, prefix, suffix } => sat32(
                    match prefix {
                        Option::Some(p) => clamp_len(p@.len()),
                        Option::None => 0u32,
                    },
                    match suffix {
                        Option::Some(x) => clamp_len(x@.len()),
                        Option::None => 0u32,
                    },
                ),
                _ => 0u32,
            },
        }
    }
}

/// The width an identifier token measures at: verbatim for the formatter,
/// with the symbol's prefix and suffix for the emitter.
pub open spec fn spec_ident_len(
    st: Seq<SymbolEntry>,
    nt: Map<u64, Seq<usize>>,
    t: Token,
    emit: bool,
) -> u32 {
    if emit {
        sat32(t.length, spec_ps_extra(st, nt, t))
    } else {
        t.length
    }
}

/// The width the emitter renders a resolved scoped identifier at: the target
/// symbol's declared name (the rendering hook's abstraction); an unresolved
/// or namespace-less one renders nothing.
pub open spec fn spec_scoped_render(
    st: Seq<SymbolEntry>,
    nt: Map<u64, Seq<usize>>,
    sid: ScopedIdentifier,
) -> Option<u32> {
    if !nt.contains_key(sid.first.id) {
        Option::None
    } else {
        match spec_resolve(st, sid.spec_texts(), nt[sid.first.id]) {
            Option::Some(i) => Option::Some(st[i].symbol.token.length),
            Option::None => Option::None,
        }
    }
}

/// The keyword token of a direction.
pub open spec fn spec_direction_token(d: Direction) -> Token {
    match d {
        Direction::Input(t) => t,
        Direction::Output(t) => t,
        Direction::Inout(t) => t,
        Direction::RefPort(t) => t,
        Direction::ModportPort(t) => t,
        Direction::ImportPort(t) => t,
    }
}

/// Everything a walk's measurements depend on besides the tree: the mode, the
/// build's implicit parameter types, and the two lookup tables.
pub ghost struct WalkEnv {
    pub emit: bool,
    pub implicit: Seq<BuiltinType>,
    pub st: Seq<SymbolEntry>,
    pub nt: Map<u64, Seq<usize>>,
}

pub open spec fn env_of(w: Walk, st: Seq<SymbolEntry>, nt: Map<u64, Seq<usize>>) -> WalkEnv {
    WalkEnv { emit: w.emit, implicit: w.implicit@, st, nt }
}

/// A token measured verbatim.
pub open spec fn optok(t: Token) -> MeasureOp {
    MeasureOp::Tok(
        t.length,
        Location { line: t.line, column: t.column, length: t.length, duplicated: Option::None },
    )
}

/// An identifier measured at its rendered width.
pub open spec fn ident_op(env: WalkEnv, t: Token) -> MeasureOp {
    MeasureOp::Tok(
        spec_ident_len(env.st, env.nt, t, env.emit),
        Location {
            line: t.line,
            column: t.column,
            length: spec_ident_len(env.st, env.nt, t, env.emit),
            duplicated: Option::None,
        },
    )
}

/// The cell operations of a scoped identifier: the emitter measures the
/// resolved symbol's rendered name once (or nothing), the formatter every
/// token.
pub open spec fn ops_scoped_id(env: WalkEnv, s: ScopedIdentifier) -> Seq<MeasureOp>
    decreases s, 1int,
{
    if env.emit {
        match spec_scoped_render(env.st, env.nt, s) {
            Option::Some(len) => seq![
                MeasureOp::Tok(
                    len,
                    Location {
                        line: s.first.line,
                        column: s.first.column,
                        length: len,
                        duplicated: Option::None,
                    },
                ),
            ],
            Option::None => Seq::empty(),
        }
    } else {
        seq![optok(s.first)] + ops_scoped_parts(s.rest, 0)
    }
}

pub open spec fn ops_scoped_parts(v: Vec<crate::tree::ScopedIdentifierPart>, i: int) -> Seq<
    MeasureOp,
>
    decreases v, v@.len() - i,
{
    if i < 0 || i >= v@.len() {
        Seq::empty()
    } else {
        seq![optok(v@[i].colon_colon), optok(v@[i].identifier)] + ops_scoped_parts(v, i + 1)
    }
}

pub open spec fn ops_expression(env: WalkEnv, e: Expression) -> Seq<MeasureOp>
    decreases e, 2int,
{
    ops_factor(env, e.head) + ops_operands(env, e.tail, 0)
}

pub open spec fn ops_operands(env: WalkEnv, v: Vec<ExprOperand>, i: int) -> Seq<MeasureOp>
    decreases v, v@.len() - i,
{
    if i < 0 || i >= v@.len() {
        Seq::empty()
    } else {
        seq![MeasureOp::Gap(1u32), optok(v@[i].operator), MeasureOp::Gap(1u32)] + ops_factor(
            env,
            v@[i].operand,
        ) + ops_operands(env, v, i + 1)
    }
}

pub open spec fn ops_factor(env: WalkEnv, f: Factor) -> Seq<MeasureOp>
    decreases f, 2int,
{
    match f {
        Factor::Number(t) => seq![optok(t)],
        Factor::ExprId(b) => ops_expr_ident(env, *b),
        Factor::MsbKeyword(t) => seq![optok(t)],
        Factor::LsbKeyword(t) => seq![optok(t)],
        Factor::Paren(l, b, r) => seq![optok(l)] + ops_expression(env, *b) + seq![optok(r)],
        Factor::CaseExpr(b) => ops_case_expr(env, *b),
        Factor::SwitchExpr(b) => ops_switch_expr(env, *b),
    }
}

pub open spec fn ops_comma_exprs(env: WalkEnv, v: Vec<CommaExpression>, i: int) -> Seq<MeasureOp>
    decreases v, v@.len() - i,
{
    if i < 0 || i >= v@.len() {
        Seq::empty()
    } else {
        seq![optok(v@[i].comma), MeasureOp::Gap(1u32)] + ops_expression(env, v@[i].expression)
            + ops_comma_exprs(env, v, i + 1)
    }
}

pub open spec fn ops_case_arms(env: WalkEnv, v: Vec<CaseArm>, i: int) -> Seq<MeasureOp>
    decreases v, v@.len() - i,
{
    if i < 0 || i >= v@.len() {
        Seq::empty()
    } else {
        seq![MeasureOp::GuardStart(KIND_EXPRESSION)] + ops_expression(env, v@[i].condition)
            + ops_comma_exprs(env, v@[i].condition_rest, 0) + seq![
            MeasureOp::GuardFinish(KIND_EXPRESSION),
            optok(v@[i].colon),
        ] + ops_expression(env, v@[i].expression) + seq![optok(v@[i].comma)] + ops_case_arms(
            env,
            v,
            i + 1,
        )
    }
}

pub open spec fn ops_case_expr(env: WalkEnv, c: CaseExpression) -> Seq<MeasureOp>
    decreases c, 2int,
{
    seq![optok(c.case)] + ops_expression(env, c.subject) + seq![optok(c.l_brace)] + ops_case_arms(
        env,
        c.arms,
        0,
    ) + seq![
        MeasureOp::GuardStart(KIND_EXPRESSION),
        optok(c.defaul),
        MeasureOp::GuardFinish(KIND_EXPRESSION),
        optok(c.default_colon),
    ] + ops_expression(env, c.default_expression) + seq![optok(c.r_brace)]
}

pub open spec fn ops_switch_expr(env: WalkEnv, c: SwitchExpression) -> Seq<MeasureOp>
    decreases c, 2int,
{
    seq![optok(c.switch), optok(c.l_brace)] + ops_case_arms(env, c.arms, 0) + seq![
        MeasureOp::GuardStart(KIND_EXPRESSION),
        optok(c.defaul),
        MeasureOp::GuardFinish(KIND_EXPRESSION),
        optok(c.default_colon),
    ] + ops_expression(env, c.default_expression) + seq![optok(c.r_brace)]
}

pub open spec fn ops_select(env: WalkEnv, s: Select) -> Seq<MeasureOp>
    decreases s, 2int,
{
    seq![optok(s.l_bracket)] + ops_expression(env, s.expression) + (match s.select_opt {
        Option::Some(r) => seq![optok(r.operator)] + ops_expression(env, r.expression),
        Option::None => Seq::empty(),
    }) + seq![optok(s.r_bracket)]
}

pub open spec fn ops_selects(env: WalkEnv, v: Vec<Select>, i: int) -> Seq<MeasureOp>
    decreases v, v@.len() - i,
{
    if i < 0 || i >= v@.len() {
        Seq::empty()
    } else {
        ops_select(env, v@[i]) + ops_selects(env, v, i + 1)
    }
}

pub open spec fn ops_segments(env: WalkEnv, v: Vec<IdSegment>, i: int) -> Seq<MeasureOp>
    decreases v, v@.len() - i,
{
    if i < 0 || i >= v@.len() {
        Seq::empty()
    } else {
        seq![optok(v@[i].dot), ident_op(env, v@[i].identifier)] + ops_selects(env, v@[i].selects, 0)
            + ops_segments(env, v, i + 1)
    }
}

pub open spec fn ops_expr_ident(env: WalkEnv, x: ExpressionIdentifier) -> Seq<MeasureOp>
    decreases x, 2int,
{
    ops_scoped_id(env, x.head) + ops_selects(env, x.head_selects, 0) + ops_segments(env, x.rest, 0)
}

/// The full dotted path of an assignment target.
pub open spec fn hier_texts(x: ExpressionIdentifier) -> Seq<usize> {
    x.head.spec_texts() + Seq::new(x.rest@.len(), |i: int| x.rest@[i].identifier.text)
}

/// The extra rendered width an assignment target's resolved symbol gives its
/// final identifier.
pub open spec fn spec_hier_extra(env: WalkEnv, x: ExpressionIdentifier) -> u32 {
    if !env.nt.contains_key(x.head.first.id) {
        0u32
    } else {
        match spec_resolve(env.st, hier_texts(x), env.nt[x.head.first.id]) {
            Option::None => 0u32,
            Option::Some(i) => match env.st[i].symbol.kind {
                SymbolKind::Port { ty: _, prefix, suffix } => sat32(
                    match prefix {
                        Option::Some(p) => clamp_len(p@.len()),
                        Option::None => 0u32,
                    },
                    match suffix {
                        Option::Some(sx) => clamp_len(sx@.len()),
                        Option::None => 0u32,
                    },
                ),
                SymbolKind::Variable { ty: _, prefix, suffix } => sat32(
                    match prefix {
                        Option::Some(p) => clamp_len(p@.len()),
                        Option::None => 0u32,
                    },
                    match suffix {
                        Option::Some(sx) => clamp_len(sx@.len()),
                        Option::None => 0u32,
                    },
                ),
                _ => 0u32,
            },
        }
    }
}

/// An identifier measured with an assignment target's prefix and suffix.
pub open spec fn hier_last_op(extra: u32, t: Token) -> MeasureOp {
    MeasureOp::Tok(
        sat32(t.length, extra),
        Location {
            line: t.line,
            column: t.column,
            length: sat32(t.length, extra),
            duplicated: Option::None,
        },
    )
}

pub open spec fn ops_hier_segments(
    env: WalkEnv,
    extra: u32,
    v: Vec<IdSegment>,
    i: int,
) -> Seq<MeasureOp>
    decreases v, v@.len() - i,
{
    if i < 0 || i >= v@.len() {
        Seq::empty()
    } else {
        seq![optok(v@[i].dot)] + (if i + 1 == v@.len() {
            seq![hier_last_op(extra, v@[i].identifier)]
        } else {
            seq![ident_op(env, v@[i].identifier)]
        }) + ops_selects(env, v@[i].selects, 0) + ops_hier_segments(env, extra, v, i + 1)
    }
}

/// An assignment target: the resolved prefix and suffix land on the last
/// dotted identifier (on the head when the chain has no dots); every select
/// is measured.
pub open spec fn ops_hier_target(env: WalkEnv, x: ExpressionIdentifier) -> Seq<MeasureOp>
    decreases x, 3int,
{
    if !env.emit {
        ops_expr_ident(env, x)
    } else {
        let extra = spec_hier_extra(env, x);
        if x.rest@.len() == 0 {
            seq![hier_last_op(extra, x.head.first)] + ops_selects(env, x.head_selects, 0)
        } else {
            seq![ident_op(env, x.head.first)] + ops_selects(env, x.head_selects, 0)
                + ops_hier_segments(env, extra, x.rest, 0)
        }
    }
}

pub open spec fn ops_width_rest(env: WalkEnv, v: Vec<CommaExpression>, i: int) -> Seq<MeasureOp>
    decreases v, v@.len() - i,
{
    if i < 0 || i >= v@.len() {
        Seq::empty()
    } else {
        (if env.emit {
            seq![MeasureOp::Gap(2u32)] + ops_expression(env, v@[i].expression) + seq![
                MeasureOp::Gap(4u32),
            ]
        } else {
            seq![optok(v@[i].comma), MeasureOp::Gap(1u32)] + ops_expression(env, v@[i].expression)
        }) + ops_width_rest(env, v, i + 1)
    }
}

/// A packed width: the emitter rewrites each dimension as `expr-1:0` and the
/// separators as `][`; the formatter keeps the commas.
pub open spec fn ops_width(env: WalkEnv, w: Width) -> Seq<MeasureOp>
    decreases w, 2int,
{
    seq![optok(w.l_angle)] + ops_expression(env, w.expression) + (if env.emit {
        seq![MeasureOp::Gap(4u32)]
    } else {
        Seq::empty()
    }) + ops_width_rest(env, w.rest, 0) + seq![optok(w.r_angle)]
}

pub open spec fn ops_array_dims(env: WalkEnv, a: ArrayDims) -> Seq<MeasureOp>
    decreases a, 2int,
{
    seq![optok(a.l_bracket)] + ops_expression(env, a.expression) + (if env.emit {
        seq![MeasureOp::Gap(4u32)]
    } else {
        Seq::empty()
    }) + ops_width_rest(env, a.rest, 0) + seq![optok(a.r_bracket)]
}

/// The engine state carried through one walk.

pub struct Walk {
    pub set: AlignSet,
    pub inserts: LocMap<u64>,
    pub emit: bool,
    pub implicit: Vec<BuiltinType>,
}

impl Walk {
    pub open spec fn wf(&self) -> bool {
        &&& self.set.wf()
        &&& self.inserts.wf()
    }

    pub open spec fn all_off(&self) -> bool {
        self.set.all_off()
    }

    pub fn new(emit: bool, implicit: Vec<BuiltinType>) -> (r: Walk)
        ensures
            r.wf(),
            r.all_off(),
    {
        Walk { set: AlignSet::new(), inserts: LocMap::new(), emit, implicit }
    }

    /// Padding inserted directly, outside any alignment kind: the location's
    /// direct padding grows by `n`, saturating, the operation is recorded,
    /// and the accumulators stay.
    fn insert_pad(&mut self, loc: Location, n: u64)
        requires
            old(self).wf(),
        ensures
            final(self).wf(),
            final(self).set@ == old(self).set@,
            final(self).set.enables() == old(self).set.enables(),
            final(self).emit == old(self).emit,
            final(self).implicit == old(self).implicit,
            final(self).set.ops() == old(self).set.ops().push(MeasureOp::Pad(loc, n)),
            lookup(final(self).inserts@, loc) == Option::Some(
                sat64(
                    match lookup(old(self).inserts@, loc) {
                        Option::Some(v) => v,
                        Option::None => 0u64,
                    },
                    n,
                ),
            ),
            forall|l2: Location|
                #![trigger lookup(final(self).inserts@, l2)]
                l2 != loc ==> lookup(final(self).inserts@, l2) == lookup(old(self).inserts@, l2),
    {
        self.set.note_pad(loc, n);
        let base = match self.inserts.get(&loc) {
            Option::Some(v) => v,
            Option::None => 0,
        };
        let v = crate::align::add_sat64(base, n);
        self.inserts.set_value(loc, v);
    }

    /// Whether the build suppresses this scalar type in parameter position.
    fn is_implicit_scalar_type(&self, s: &ScalarType) -> (r: bool)
        ensures
            r == spec_implicit_scalar(*s, self.implicit@),
    {
        if s.modifiers.len() != 0 {
            return false;
        }
        let b = match &s.kind {
            ScalarKind::Fixed { token: _, kind } => match kind {
                FixedKind::U32 => BuiltinType::U32,
                FixedKind::U64 => BuiltinType::U64,
                FixedKind::I32 => BuiltinType::I32,
                FixedKind::I64 => BuiltinType::I64,
                FixedKind::F32 => BuiltinType::F32,
                FixedKind::F64 => BuiltinType::F64,
                FixedKind::Str => BuiltinType::Str,
            },
            _ => {
                return false;
            },
        };
        self.contains_builtin(b)
    }

    /// Whether the build suppresses the `type` keyword in parameter position.
    fn is_implicit_type(&self) -> (r: bool)
        ensures
            r == spec_implicit_type(self.implicit@),
    {
        self.contains_builtin(BuiltinType::Type)
    }

    fn contains_builtin(&self, b: BuiltinType) -> (r: bool)
        ensures
            r == self.implicit@.contains(b),
    {
        let n = self.implicit.len();
        let mut i: usize = 0;
        while i < n
            invariant
                n == self.implicit@.len(),
                i <= n,
                forall|j: int| 0 <= j < i ==> self.implicit@[j] != b,
            decreases n - i,
        {
            if self.implicit[i] == b {
                return true;
            }
            i += 1;
        }
        false
    }

    /// Extra rendered width an identifier gains from its symbol's prefix and
    /// suffix; a missing lookup degrades gracefully to none.
    fn prefix_suffix_extra(&self, st: &SymbolTable, nt: &NamespaceTable, t: Token) -> (r: u32)
        requires
            st.wf(),
            nt.wf(),
        ensures
            r == spec_ps_extra(st@, nt@, t),
    {
        let ns: Vec<usize> = match nt.get(t.id) {
            Option::Some(v) => v.clone(),
            Option::None => {
                return 0;
            },
        };
        let mut path: Vec<usize> = Vec::new();
        path.push(t.text);
        proof {
            assert(path@ =~= seq![t.text]);
        }
        let sym = match st.resolve(&path, &ns) {
            Option::Some(s) => s,
            Option::None => {
                return 0;
            },
        };
        let (prefix, suffix) = match &sym.kind {
            SymbolKind::Port { ty: _, prefix, suffix } => (prefix, suffix),
            SymbolKind::Variable { ty: _, prefix, suffix } => (prefix, suffix),
            _ => (&None, &None),
        };
        let plen: u32 = match prefix {
            Option::Some(p) => clamp32(p.as_str().unicode_len()),
            Option::None => 0,
        };
        let slen: u32 = match suffix {
            Option::Some(sfx) => clamp32(sfx.as_str().unicode_len()),
            Option::None => 0,
        };
        add_sat32(plen, slen)
    }

    /// An identifier token: in emitter mode measured with its symbol's prefix
    /// and suffix applied, in formatter mode verbatim. Every open cell
    /// measures exactly the rendered width.
    fn ident(&mut self, st: &SymbolTable, nt: &NamespaceTable, t: Token)
        requires
            old(self).wf(),
            st.wf(),
            nt.wf(),
        ensures
            final(self).wf(),
            final(self).set.enables() == old(self).set.enables(),
            final(self).inserts == old(self).inserts,
            final(self).emit == old(self).emit,
            final(self).implicit == old(self).implicit,
            ({
                let len = spec_ident_len(st@, nt@, t, old(self).emit);
                forall|k: int|
                    0 <= k < NUM_KINDS ==> final(self).set@[k] == spec_token(
                        old(self).set@[k],
                        len,
                        (Location {
                            line: t.line,
                            column: t.column,
                            length: len,
                            duplicated: Option::None::<usize>,
                        }),
                    )
            }),
            final(self).set.ops() == old(self).set.ops().push(ident_op(env_of(*old(self), st@, nt@), t)),
    {
        if self.emit {
            let extra = self.prefix_suffix_extra(st, nt, t);
            let len = add_sat32(t.length, extra);
            let loc = Location { line: t.line, column: t.column, length: len, duplicated: None };
            self.set.rendered_all(len, loc);
        } else {
            self.set.token_all(t);
        }
    }

    /// A scoped identifier in type or instance position: the emitter measures
    /// the resolved symbol's rendered name (abstracted as its declared name)
    /// and skips an unresolved one; the formatter keeps every token.
    fn scoped_id(&mut self, st: &SymbolTable, nt: &NamespaceTable, s: &ScopedIdentifier)
        requires
            old(self).wf(),
            st.wf(),
            nt.wf(),
        ensures
            final(self).wf(),
            final(self).set.enables() == old(self).set.enables(),
            final(self).inserts == old(self).inserts,
            final(self).emit == old(self).emit,
            final(self).implicit == old(self).implicit,
            old(self).emit ==> (match spec_scoped_render(st@, nt@, *s) {
                Option::Some(len) => forall|k: int|
                    0 <= k < NUM_KINDS ==> final(self).set@[k] == spec_token(
                        old(self).set@[k],
                        len,
                        (Location {
                            line: s.first.line,
                            column: s.first.column,
                            length: len,
                            duplicated: Option::None::<usize>,
                        }),
                    ),
                Option::None => final(self).set@ == old(self).set@,
            }),
            final(self).set.ops() == old(self).set.ops() + ops_scoped_id(
                env_of(*old(self), st@, nt@),
                *s,
            ),
        decreases *s, 2int,
    {
        if self.emit {
            let ns: Vec<usize> = match nt.get(s.first.id) {
                Option::Some(v) => v.clone(),
                Option::None => {
                    proof {
                        assert(self.set.ops() =~= old(self).set.ops() + ops_scoped_id(
                            env_of(*old(self), st@, nt@),
                            *s,
                        ));
                    }
                    return;
                },
            };
            let texts = s.texts();
            match st.resolve(&texts, &ns) {
                Option::Some(sym) => {
                    let len = sym.token.length;
                    let loc = Location {
                        line: s.first.line,
                        column: s.first.column,
                        length: len,
                        duplicated: None,
                    };
                    self.set.rendered_all(len, loc);
                },
                Option::None => {},
            }
            proof {
                assert(self.set.ops() =~= old(self).set.ops() + ops_scoped_id(
                    env_of(*old(self), st@, nt@),
                    *s,
                ));
            }
        } else {
            self.set.token_all(s.first);
            self.scoped_parts(st, nt, &s.rest, 0);
            proof {
                assert(self.set.ops() =~= old(self).set.ops() + ops_scoped_id(
                    env_of(*old(self), st@, nt@),
                    *s,
                ));
            }
        }
    }

    fn scoped_parts(
        &mut self,
        st: &SymbolTable,
        nt: &NamespaceTable,
        v: &Vec<crate::tree::ScopedIdentifierPart>,
        i: usize,
    )
        requires
            old(self).wf(),
            st.wf(),
            nt.wf(),
            i <= v@.len(),
        ensures
            final(self).wf(),
            final(self).set.enables() == old(self).set.enables(),
            final(self).inserts == old(self).inserts,
            final(self).emit == old(self).emit,
            final(self).implicit == old(self).implicit,
            final(self).set.ops() == old(self).set.ops() + ops_scoped_parts(*v, i as int),
        decreases *v, v@.len() - i,
    {
        if i < v.len() {
            self.set.token_all(v[i].colon_colon);
            self.set.token_all(v[i].identifier);
            self.scoped_parts(st, nt, v, i + 1);
        }
        proof {
            assert(self.set.ops() =~= old(self).set.ops() + ops_scoped_parts(*v, i as int));
        }
    }

    /// An expression: virtual spaces surround every binary operator so widths
    /// reflect rendered output.
    fn expression(&mut self, st: &SymbolTable, nt: &NamespaceTable, e: &Expression)
        requires
            old(self).wf(),
            st.wf(),
            nt.wf(),
        ensures
            final(self).wf(),
            final(self).set.enables() == old(self).set.enables(),
            final(self).inserts == old(self).inserts,
            final(self).emit == old(self).emit,
            final(self).implicit == old(self).implicit,
            final(self).set.ops() == old(self).set.ops() + ops_expression(
                env_of(*old(self), st@, nt@),
                *e,
            ),
        decreases *e, 2int,
    {
        self.factor(st, nt, &e.head);
        self.operands(st, nt, &e.tail, 0);
        proof {
            assert(self.set.ops() =~= old(self).set.ops() + ops_expression(
                env_of(*old(self), st@, nt@),
                *e,
            ));
        }
    }

    fn operands(&mut self, st: &SymbolTable, nt: &NamespaceTable, v: &Vec<ExprOperand>, i: usize)
        requires
            old(self).wf(),
            st.wf(),
            nt.wf(),
            i <= v@.len(),
        ensures
            final(self).wf(),
            final(self).set.enables() == old(self).set.enables(),
            final(self).inserts == old(self).inserts,
            final(self).emit == old(self).emit,
            final(self).implicit == old(self).implicit,
            final(self).set.ops() == old(self).set.ops() + ops_operands(
                env_of(*old(self), st@, nt@),
                *v,
                i as int,
            ),
        decreases *v, v@.len() - i,
    {
        if i < v.len() {
            self.set.space_all(1);
            self.set.token_all(v[i].operator);
            self.set.space_all(1);
            self.factor(st, nt, &v[i].operand);
            self.operands(st, nt, v, i + 1);
        }
        proof {
            assert(self.set.ops() =~= old(self).set.ops() + ops_operands(
                env_of(*old(self), st@, nt@),
                *v,
                i as int,
            ));
        }
    }

    fn factor(&mut self, st: &SymbolTable, nt: &NamespaceTable, f: &Factor)
        requires
            old(self).wf(),
            st.wf(),
            nt.wf(),
        ensures
            final(self).wf(),
            final(self).set.enables() == old(self).set.enables(),
            final(self).inserts == old(self).inserts,
            final(self).emit == old(self).emit,
            final(self).implicit == old(self).implicit,
            final(self).set.ops() == old(self).set.ops() + ops_factor(
                env_of(*old(self), st@, nt@),
                *f,
            ),
        decreases *f, 2int,
    {
        match f {
            Factor::Number(t) => self.set.token_all(*t),
            Factor::ExprId(b) => self.expr_ident(st, nt, &*b),
            Factor::MsbKeyword(t) => self.set.token_all(*t),
            Factor::LsbKeyword(t) => self.set.token_all(*t),
            Factor::Paren(l, b, r) => {
                self.set.token_all(*l);
                self.expression(st, nt, &*b);
                self.set.token_all(*r);
            },
            Factor::CaseExpr(b) => self.case_expr(st, nt, &*b),
            Factor::SwitchExpr(b) => self.switch_expr(st, nt, &*b),
        }
        proof {
            assert(self.set.ops() =~= old(self).set.ops() + ops_factor(
                env_of(*old(self), st@, nt@),
                *f,
            ));
        }
    }

    fn comma_exprs(
        &mut self,
        st: &SymbolTable,
        nt: &NamespaceTable,
        v: &Vec<CommaExpression>,
        i: usize,
    )
        requires
            old(self).wf(),
            st.wf(),
            nt.wf(),
            i <= v@.len(),
        ensures
            final(self).wf(),
            final(self).set.enables() == old(self).set.enables(),
            final(self).inserts == old(self).inserts,
            final(self).emit == old(self).emit,
            final(self).implicit == old(self).implicit,
            final(self).set.ops() == old(self).set.ops() + ops_comma_exprs(
                env_of(*old(self), st@, nt@),
                *v,
                i as int,
            ),
        decreases *v, v@.len() - i,
    {
        if i < v.len() {
            self.set.token_all(v[i].comma);
            self.set.space_all(1);
            self.expression(st, nt, &v[i].expression);
            self.comma_exprs(st, nt, v, i + 1);
        }
        proof {
            assert(self.set.ops() =~= old(self).set.ops() + ops_comma_exprs(
                env_of(*old(self), st@, nt@),
                *v,
                i as int,
            ));
        }
    }

    /// One arm of a case or switch expression: the condition is a cell of the
    /// expression column, unless a cell is already open there.
    fn case_arms(&mut self, st: &SymbolTable, nt: &NamespaceTable, v: &Vec<CaseArm>, i: usize)
        requires
            old(self).wf(),
            st.wf(),
            nt.wf(),
            i <= v@.len(),
        ensures
            final(self).wf(),
            final(self).set.enables() == old(self).set.enables(),
            final(self).inserts == old(self).inserts,
            final(self).emit == old(self).emit,
            final(self).implicit == old(self).implicit,
            final(self).set.ops() == old(self).set.ops() + ops_case_arms(
                env_of(*old(self), st@, nt@),
                *v,
                i as int,
            ),
        decreases *v, v@.len() - i,
    {
        if i < v.len() {
            let armed = self.set.guard_start(KIND_EXPRESSION);
            self.expression(st, nt, &v[i].condition);
            self.comma_exprs(st, nt, &v[i].condition_rest, 0);
            self.set.guard_finish(KIND_EXPRESSION, armed);
            self.set.token_all(v[i].colon);
            self.expression(st, nt, &v[i].expression);
            self.set.token_all(v[i].comma);
            self.case_arms(st, nt, v, i + 1);
        }
        proof {
            assert(self.set.ops() =~= old(self).set.ops() + ops_case_arms(
                env_of(*old(self), st@, nt@),
                *v,
                i as int,
            ));
        }
    }

    fn case_expr(&mut self, st: &SymbolTable, nt: &NamespaceTable, c: &CaseExpression)
        requires
            old(self).wf(),
            st.wf(),
            nt.wf(),
        ensures
            final(self).wf(),
            final(self).set.enables() == old(self).set.enables(),
            final(self).inserts == old(self).inserts,
            final(self).emit == old(self).emit,
            final(self).implicit == old(self).implicit,
            final(self).set.ops() == old(self).set.ops() + ops_case_expr(
                env_of(*old(self), st@, nt@),
                *c,
            ),
        decreases *c, 2int,
    {
        self.set.token_all(c.case);
        self.expression(st, nt, &c.subject);
        self.set.token_all(c.l_brace);
        self.case_arms(st, nt, &c.arms, 0);
        let armed = self.set.guard_start(KIND_EXPRESSION);
        self.set.token_all(c.defaul);
        self.set.guard_finish(KIND_EXPRESSION, armed);
        self.set.token_all(c.default_colon);
        self.expression(st, nt, &c.default_expression);
        self.set.token_all(c.r_brace);
        proof {
            assert(self.set.ops() =~= old(self).set.ops() + ops_case_expr(
                env_of(*old(self), st@, nt@),
                *c,
            ));
        }
    }

    fn switch_expr(&mut self, st: &SymbolTable, nt: &NamespaceTable, c: &SwitchExpression)
        requires
            old(self).wf(),
            st.wf(),
            nt.wf(),
        ensures
            final(self).wf(),
            final(self).set.enables() == old(self).set.enables(),
            final(self).inserts == old(self).inserts,
            final(self).emit == old(self).emit,
            final(self).implicit == old(self).implicit,
            final(self).set.ops() == old(self).set.ops() + ops_switch_expr(
                env_of(*old(self), st@, nt@),
                *c,
            ),
        decreases *c, 2int,
    {
        self.set.token_all(c.switch);
        self.set.token_all(c.l_brace);
        self.case_arms(st, nt, &c.arms, 0);
        let armed = self.set.guard_start(KIND_EXPRESSION);
        self.set.token_all(c.defaul);
        self.set.guard_finish(KIND_EXPRESSION, armed);
        self.set.token_all(c.default_colon);
        self.expression(st, nt, &c.default_expression);
        self.set.token_all(c.r_brace);
        proof {
            assert(self.set.ops() =~= old(self).set.ops() + ops_switch_expr(
                env_of(*old(self), st@, nt@),
                *c,
            ));
        }
    }

    fn select(&mut self, st: &SymbolTable, nt: &NamespaceTable, s: &Select)
        requires
            old(self).wf(),
            st.wf(),
            nt.wf(),
        ensures
            final(self).wf(),
            final(self).set.enables() == old(self).set.enables(),
            final(self).inserts == old(self).inserts,
            final(self).emit == old(self).emit,
            final(self).implicit == old(self).implicit,
            final(self).set.ops() == old(self).set.ops() + ops_select(
                env_of(*old(self), st@, nt@),
                *s,
            ),
        decreases *s, 2int,
    {
        self.set.token_all(s.l_bracket);
        self.expression(st, nt, &s.expression);
        match &s.select_opt {
            Option::Some(r) => {
                self.set.token_all(r.operator);
                self.expression(st, nt, &r.expression);
            },
            Option::None => {},
        }
        self.set.token_all(s.r_bracket);
        proof {
            assert(self.set.ops() =~= old(self).set.ops() + ops_select(
                env_of(*old(self), st@, nt@),
                *s,
            ));
        }
    }

    fn selects(&mut self, st: &SymbolTable, nt: &NamespaceTable, v: &Vec<Select>, i: usize)
        requires
            old(self).wf(),
            st.wf(),
            nt.wf(),
            i <= v@.len(),
        ensures
            final(self).wf(),
            final(self).set.enables() == old(self).set.enables(),
            final(self).inserts == old(self).inserts,
            final(self).emit == old(self).emit,
            final(self).implicit == old(self).implicit,
            final(self).set.ops() == old(self).set.ops() + ops_selects(
                env_of(*old(self), st@, nt@),
                *v,
                i as int,
            ),
        decreases *v, v@.len() - i,
    {
        if i < v.len() {
            self.select(st, nt, &v[i]);
            self.selects(st, nt, v, i + 1);
        }
        proof {
            assert(self.set.ops() =~= old(self).set.ops() + ops_selects(
                env_of(*old(self), st@, nt@),
                *v,
                i as int,
            ));
        }
    }

    fn segments(&mut self, st: &SymbolTable, nt: &NamespaceTable, v: &Vec<IdSegment>, i: usize)
        requires
            old(self).wf(),
            st.wf(),
            nt.wf(),
            i <= v@.len(),
        ensures
            final(self).wf(),
            final(self).set.enables() == old(self).set.enables(),
            final(self).inserts == old(self).inserts,
            final(self).emit == old(self).emit,
            final(self).implicit == old(self).implicit,
            final(self).set.ops() == old(self).set.ops() + ops_segments(
                env_of(*old(self), st@, nt@),
                *v,
                i as int,
            ),
        decreases *v, v@.len() - i,
    {
        if i < v.len() {
            self.set.token_all(v[i].dot);
            self.ident(st, nt, v[i].identifier);
            self.selects(st, nt, &v[i].selects, 0);
            self.segments(st, nt, v, i + 1);
        }
        proof {
            assert(self.set.ops() =~= old(self).set.ops() + ops_segments(
                env_of(*old(self), st@, nt@),
                *v,
                i as int,
            ));
        }
    }

    /// A name in expression position: the scoped head resolves to its
    /// rendered symbol in emitter mode.
    fn expr_ident(&mut self, st: &SymbolTable, nt: &NamespaceTable, x: &ExpressionIdentifier)
        requires
            old(self).wf(),
            st.wf(),
            nt.wf(),
        ensures
            final(self).wf(),
            final(self).set.enables() == old(self).set.enables(),
            final(self).inserts == old(self).inserts,
            final(self).emit == old(self).emit,
            final(self).implicit == old(self).implicit,
            final(self).set.ops() == old(self).set.ops() + ops_expr_ident(
                env_of(*old(self), st@, nt@),
                *x,
            ),
        decreases *x, 2int,
    {
        self.scoped_id(st, nt, &x.head);
        self.selects(st, nt, &x.head_selects, 0);
        self.segments(st, nt, &x.rest, 0);
        proof {
            assert(self.set.ops() =~= old(self).set.ops() + ops_expr_ident(
                env_of(*old(self), st@, nt@),
                *x,
            ));
        }
    }

    /// An assignment target: the emitter applies the resolved prefix and
    /// suffix to the last dotted identifier, the formatter keeps every token.
    fn hier_target(&mut self, st: &SymbolTable, nt: &NamespaceTable, x: &ExpressionIdentifier)
        requires
            old(self).wf(),
            st.wf(),
            nt.wf(),
        ensures
            final(self).wf(),
            final(self).set.enables() == old(self).set.enables(),
            final(self).inserts == old(self).inserts,
            final(self).emit == old(self).emit,
            final(self).implicit == old(self).implicit,
            final(self).set.ops() == old(self).set.ops() + ops_hier_target(
                env_of(*old(self), st@, nt@),
                *x,
            ),
        decreases *x, 3int,
    {
        if !self.emit {
            self.scoped_id(st, nt, &x.head);
            self.selects(st, nt, &x.head_selects, 0);
            self.segments(st, nt, &x.rest, 0);
            proof {
                assert(self.set.ops() =~= old(self).set.ops() + ops_hier_target(
                    env_of(*old(self), st@, nt@),
                    *x,
                ));
            }
            return;
        }
        // rendered with the full path's prefix and suffix
        let extra = self.hier_extra(st, nt, x);
        if x.rest.len() == 0 {
            let t = x.head.first;
            let len = add_sat32(t.length, extra);
            let loc = Location { line: t.line, column: t.column, length: len, duplicated: None };
            self.set.rendered_all(len, loc);
            self.selects(st, nt, &x.head_selects, 0);
        } else {
            self.ident(st, nt, x.head.first);
            self.selects(st, nt, &x.head_selects, 0);
            self.hier_segments(st, nt, extra, &x.rest, 0);
        }
        proof {
            assert(self.set.ops() =~= old(self).set.ops() + ops_hier_target(
                env_of(*old(self), st@, nt@),
                *x,
            ));
        }
    }

    /// The extra rendered width of an assignment target's resolved symbol.
    fn hier_extra(&self, st: &SymbolTable, nt: &NamespaceTable, x: &ExpressionIdentifier) -> (r:
        u32)
        requires
            st.wf(),
            nt.wf(),
        ensures
            r == spec_hier_extra(env_of(*self, st@, nt@), *x),
    {
        match nt.get(x.head.first.id) {
            Option::Some(ns) => {
                let nsv = ns.clone();
                let mut texts = x.head.texts();
                let mut j: usize = 0;
                let n = x.rest.len();
                while j < n
                    invariant
                        n == x.rest@.len(),
                        j <= n,
                        texts@.len() == x.head.spec_texts().len() + j,
                        forall|w: int|
                            0 <= w < x.head.spec_texts().len() ==> texts@[w]
                                == x.head.spec_texts()[w],
                        forall|w: int|
                            0 <= w < j ==> texts@[x.head.spec_texts().len() + w]
                                == x.rest@[w].identifier.text,
                    decreases n - j,
                {
                    texts.push(x.rest[j].identifier.text);
                    j += 1;
                }
                proof {
                    assert(texts@ =~= hier_texts(*x));
                }
                match st.resolve(&texts, &nsv) {
                    Option::Some(sym) => {
                        match &sym.kind {
                            SymbolKind::Port { ty: _, prefix, suffix } | SymbolKind::Variable {
                                ty: _,
                                prefix,
                                suffix,
                            } => {
                                let plen: u32 = match prefix {
                                    Option::Some(p) => clamp32(p.as_str().unicode_len()),
                                    Option::None => 0,
                                };
                                let slen: u32 = match suffix {
                                    Option::Some(sx) => clamp32(sx.as_str().unicode_len()),
                                    Option::None => 0,
                                };
                                add_sat32(plen, slen)
                            },
                            _ => 0,
                        }
                    },
                    Option::None => 0,
                }
            },
            Option::None => 0,
        }
    }

    fn hier_segments(
        &mut self,
        st: &SymbolTable,
        nt: &NamespaceTable,
        extra: u32,
        v: &Vec<IdSegment>,
        i: usize,
    )
        requires
            old(self).wf(),
            st.wf(),
            nt.wf(),
            i <= v@.len(),
        ensures
            final(self).wf(),
            final(self).set.enables() == old(self).set.enables(),
            final(self).inserts == old(self).inserts,
            final(self).emit == old(self).emit,
            final(self).implicit == old(self).implicit,
            final(self).set.ops() == old(self).set.ops() + ops_hier_segments(
                env_of(*old(self), st@, nt@),
                extra,
                *v,
                i as int,
            ),
        decreases *v, v@.len() - i,
    {
        if i < v.len() {
            self.set.token_all(v[i].dot);
            if i + 1 == v.len() {
                let t = v[i].identifier;
                let len = add_sat32(t.length, extra);
                let loc = Location {
                    line: t.line,
                    column: t.column,
                    length: len,
                    duplicated: None,
                };
                self.set.rendered_all(len, loc);
            } else {
                self.ident(st, nt, v[i].identifier);
            }
            self.selects(st, nt, &v[i].selects, 0);
            self.hier_segments(st, nt, extra, v, i + 1);
        }
        proof {
            assert(self.set.ops() =~= old(self).set.ops() + ops_hier_segments(
                env_of(*old(self), st@, nt@),
                extra,
                *v,
                i as int,
            ));
        }
    }

    /// A packed width: the emitter rewrites each dimension as `expr-1:0` and
    /// the separators as `][`; the formatter keeps the commas.
    fn width(&mut self, st: &SymbolTable, nt: &NamespaceTable, w: &Width)
        requires
            old(self).wf(),
            st.wf(),
            nt.wf(),
        ensures
            final(self).wf(),
            final(self).set.enables() == old(self).set.enables(),
            final(self).inserts == old(self).inserts,
            final(self).emit == old(self).emit,
            final(self).implicit == old(self).implicit,
            final(self).set.ops() == old(self).set.ops() + ops_width(
                env_of(*old(self), st@, nt@),
                *w,
            ),
        decreases *w, 2int,
    {
        self.set.token_all(w.l_angle);
        self.expression(st, nt, &w.expression);
        if self.emit {
            self.set.space_all(4);
        }
        self.width_rest(st, nt, &w.rest, 0);
        self.set.token_all(w.r_angle);
        proof {
            assert(self.set.ops() =~= old(self).set.ops() + ops_width(
                env_of(*old(self), st@, nt@),
                *w,
            ));
        }
    }

    /// The later dimensions of a width or array list.
    fn width_rest(
        &mut self,
        st: &SymbolTable,
        nt: &NamespaceTable,
        v: &Vec<CommaExpression>,
        i: usize,
    )
        requires
            old(self).wf(),
            st.wf(),
            nt.wf(),
            i <= v@.len(),
        ensures
            final(self).wf(),
            final(self).set.enables() == old(self).set.enables(),
            final(self).inserts == old(self).inserts,
            final(self).emit == old(self).emit,
            final(self).implicit == old(self).implicit,
            final(self).set.ops() == old(self).set.ops() + ops_width_rest(
                env_of(*old(self), st@, nt@),
                *v,
                i as int,
            ),
        decreases *v, v@.len() - i,
    {
        if i < v.len() {
            if self.emit {
                self.set.space_all(2);
            } else {
                self.set.token_all(v[i].comma);
                self.set.space_all(1);
            }
            self.expression(st, nt, &v[i].expression);
            if self.emit {
                self.set.space_all(4);
            }
            self.width_rest(st, nt, v, i + 1);
        }
        proof {
            assert(self.set.ops() =~= old(self).set.ops() + ops_width_rest(
                env_of(*old(self), st@, nt@),
                *v,
                i as int,
            ));
        }
    }

    /// Unpacked array dimensions, rewritten like widths in emitter mode.
    fn array_dims(&mut self, st: &SymbolTable, nt: &NamespaceTable, a: &ArrayDims)
        requires
            old(self).wf(),
            st.wf(),
            nt.wf(),
        ensures
            final(self).wf(),
            final(self).set.enables() == old(self).set.enables(),
            final(self).inserts == old(self).inserts,
            final(self).emit == old(self).emit,
            final(self).implicit == old(self).implicit,
            final(self).set.ops() == old(self).set.ops() + ops_array_dims(
                env_of(*old(self), st@, nt@),
                *a,
            ),
        decreases *a, 2int,
    {
        self.set.token_all(a.l_bracket);
        self.expression(st, nt, &a.expression);
        if self.emit {
            self.set.space_all(4);
        }
        self.width_rest(st, nt, &a.rest, 0);
        self.set.token_all(a.r_bracket);
        proof {
            assert(self.set.ops() =~= old(self).set.ops() + ops_array_dims(
                env_of(*old(self), st@, nt@),
                *a,
            ));
        }
    }
}

/// Clamp a character count into a width.
fn clamp32(n: usize) -> (r: u32)
    ensures
        r == clamp_len(n as nat),
{
    if n > 0xffff_ffff {
        0xffff_ffffu32
    } else {
        n as u32
    }
}

/// A token's source location.
pub open spec fn tok_loc(t: Token) -> Location {
    Location { line: t.line, column: t.column, length: t.length, duplicated: Option::None }
}

/// The built-in kind a fixed scalar spelling stands for.
pub open spec fn builtin_of(k: FixedKind) -> BuiltinType {
    match k {
        FixedKind::U32 => BuiltinType::U32,
        FixedKind::U64 => BuiltinType::U64,
        FixedKind::I32 => BuiltinType::I32,
        FixedKind::I64 => BuiltinType::I64,
        FixedKind::F32 => BuiltinType::F32,
        FixedKind::F64 => BuiltinType::F64,
        FixedKind::Str => BuiltinType::Str,
    }
}

/// Whether the build suppresses this scalar type in parameter position.
pub open spec fn spec_implicit_scalar(s: ScalarType, implicit: Seq<BuiltinType>) -> bool {
    s.modifiers@.len() == 0 && (match s.kind {
        ScalarKind::Fixed { token: _, kind } => implicit.contains(builtin_of(kind)),
        _ => false,
    })
}

/// Whether the build suppresses the `type` keyword in parameter position.
pub open spec fn spec_implicit_type(implicit: Seq<BuiltinType>) -> bool {
    implicit.contains(BuiltinType::Type)
}

/// A built-in variable type measured at its rendered width.
pub open spec fn var_tok_op(env: WalkEnv, t: Token, k: VariableKind) -> MeasureOp {
    if env.emit {
        MeasureOp::Tok(
            spec_variable_len(k, t),
            Location {
                line: t.line,
                column: t.column,
                length: spec_variable_len(k, t),
                duplicated: Option::None,
            },
        )
    } else {
        optok(t)
    }
}

/// A built-in fixed type measured at its rendered width.
pub open spec fn fixed_tok_op(env: WalkEnv, t: Token, k: FixedKind) -> MeasureOp {
    if env.emit {
        MeasureOp::Tok(
            spec_fixed_len(k, t),
            Location {
                line: t.line,
                column: t.column,
                length: spec_fixed_len(k, t),
                duplicated: Option::None,
            },
        )
    } else {
        optok(t)
    }
}

pub open spec fn ops_modifiers(v: Vec<Token>, i: int) -> Seq<MeasureOp>
    decreases v, v@.len() - i,
{
    if i < 0 || i >= v@.len() {
        Seq::empty()
    } else {
        seq![optok(v@[i]), MeasureOp::Gap(1u32)] + ops_modifiers(v, i + 1)
    }
}

/// The optional width cell content: a measured width, or a zero-width
/// placeholder anchored at the type cell's end.
pub open spec fn ops_width_opt(env: WalkEnv, w: Option<Width>) -> Seq<MeasureOp> {
    match w {
        Option::Some(w) => (if env.emit {
            seq![MeasureOp::Gap(1u32)]
        } else {
            Seq::empty()
        }) + ops_width(env, w),
        Option::None => seq![MeasureOp::DummyFrom(KIND_WIDTH, KIND_TYPE)],
    }
}

/// A scalar type: exactly one type cell, then exactly one width cell (a
/// placeholder when no width is written, so the column always exists).
pub open spec fn ops_scalar_type(env: WalkEnv, s: ScalarType) -> Seq<MeasureOp>
    decreases s, 2int,
{
    seq![MeasureOp::Start(KIND_TYPE)] + (if env.emit {
        seq![MeasureOp::Gap(1u32)]
    } else {
        Seq::empty()
    }) + ops_modifiers(s.modifiers, 0) + (match s.kind {
        ScalarKind::UserDefined { identifier, width } => ops_scoped_id(env, identifier) + seq![
            MeasureOp::Finish(KIND_TYPE),
            MeasureOp::Start(KIND_WIDTH),
        ] + ops_width_opt(env, width),
        ScalarKind::Variable { token, kind, width } => seq![
            var_tok_op(env, token, kind),
            MeasureOp::Finish(KIND_TYPE),
            MeasureOp::Start(KIND_WIDTH),
        ] + ops_width_opt(env, width),
        ScalarKind::Fixed { token, kind } => seq![
            fixed_tok_op(env, token, kind),
            MeasureOp::Finish(KIND_TYPE),
            MeasureOp::Start(KIND_WIDTH),
            MeasureOp::DummyFrom(KIND_WIDTH, KIND_TYPE),
        ],
    }) + seq![MeasureOp::Finish(KIND_WIDTH)]
}

/// A declared type: the scalar cells, then exactly one array cell (a
/// placeholder anchored at the identifier column for the emitter, at the
/// width column for the formatter).
pub open spec fn ops_array_type(env: WalkEnv, a: ArrayType) -> Seq<MeasureOp>
    decreases a, 2int,
{
    ops_scalar_type(env, a.scalar) + seq![MeasureOp::Start(KIND_ARRAY)] + (match a.array {
        Option::Some(d) => seq![MeasureOp::Gap(1u32)] + ops_array_dims(env, d),
        Option::None => seq![
            MeasureOp::DummyFrom(
                KIND_ARRAY,
                if env.emit {
                    KIND_IDENTIFIER
                } else {
                    KIND_WIDTH
                },
            ),
        ],
    }) + seq![MeasureOp::Finish(KIND_ARRAY)]
}

/// A direction: one direction cell around the keyword; a modport direction is
/// skipped entirely by the emitter.
pub open spec fn ops_direction(env: WalkEnv, d: Direction) -> Seq<MeasureOp> {
    if env.emit && d matches Direction::ModportPort(_) {
        Seq::empty()
    } else {
        seq![
            MeasureOp::Start(KIND_DIRECTION),
            optok(spec_direction_token(d)),
            MeasureOp::Finish(KIND_DIRECTION),
        ]
    }
}

/// The formatter's clock-domain cell: the annotation and one space, or a
/// zero-width placeholder at the given anchor.
pub open spec fn ops_clock_domain(cd: Option<Token>, anchor: Location) -> Seq<MeasureOp> {
    seq![MeasureOp::Start(KIND_CLOCK_DOMAIN)] + (match cd {
        Option::Some(t) => seq![optok(t), MeasureOp::Gap(1u32)],
        Option::None => seq![MeasureOp::DummyAt(KIND_CLOCK_DOMAIN, anchor)],
    }) + seq![MeasureOp::Finish(KIND_CLOCK_DOMAIN)]
}

/// `let name : [domain] type = value ;`: one identifier cell, the formatter's
/// clock-domain cell, then the type cells.
pub open spec fn ops_let(env: WalkEnv, d: LetDeclaration) -> Seq<MeasureOp>
    decreases d, 3int,
{
    seq![
        optok(d.kw),
        MeasureOp::Start(KIND_IDENTIFIER),
        ident_op(env, d.identifier),
        MeasureOp::Finish(KIND_IDENTIFIER),
        optok(d.colon),
    ] + (if env.emit {
        Seq::empty()
    } else {
        ops_clock_domain(d.clock_domain, tok_loc(d.colon))
    }) + ops_array_type(env, d.ty) + seq![optok(d.equ)] + ops_expression(env, d.expression) + seq![
        optok(d.semicolon),
    ]
}

pub open spec fn ops_var(env: WalkEnv, d: VarDeclaration) -> Seq<MeasureOp>
    decreases d, 3int,
{
    seq![
        optok(d.kw),
        MeasureOp::Start(KIND_IDENTIFIER),
        ident_op(env, d.identifier),
        MeasureOp::Finish(KIND_IDENTIFIER),
        optok(d.colon),
    ] + (if env.emit {
        Seq::empty()
    } else {
        ops_clock_domain(d.clock_domain, tok_loc(d.colon))
    }) + ops_array_type(env, d.ty) + seq![optok(d.semicolon)]
}

/// `const name : type = value ;`: the emitter renders the keyword ten wide
/// and suppresses implicit types down to a placeholder at the keyword.
pub open spec fn ops_const(env: WalkEnv, d: ConstDeclaration) -> Seq<MeasureOp>
    decreases d, 3int,
{
    seq![
        if env.emit {
            MeasureOp::Tok(
                10u32,
                Location {
                    line: d.kw.line,
                    column: d.kw.column,
                    length: 10u32,
                    duplicated: Option::None,
                },
            )
        } else {
            optok(d.kw)
        },
        MeasureOp::Start(KIND_IDENTIFIER),
        ident_op(env, d.identifier),
        MeasureOp::Finish(KIND_IDENTIFIER),
        optok(d.colon),
    ] + (match d.ty {
        ConstTypeGroup::Arr(at) => if env.emit && spec_implicit_scalar(at.scalar, env.implicit) {
            seq![
                MeasureOp::Start(KIND_TYPE),
                MeasureOp::DummyAt(KIND_TYPE, tok_loc(d.kw)),
                MeasureOp::Finish(KIND_TYPE),
            ]
        } else {
            ops_array_type(env, at)
        },
        ConstTypeGroup::TypeKeyword(t) => seq![MeasureOp::Start(KIND_TYPE)] + (if env.emit {
            if spec_implicit_type(env.implicit) {
                seq![MeasureOp::DummyAt(KIND_TYPE, tok_loc(d.kw))]
            } else {
                seq![optok(t), MeasureOp::Gap(1u32)]
            }
        } else {
            seq![optok(t)]
        }) + seq![MeasureOp::Finish(KIND_TYPE)],
    }) + seq![optok(d.equ)] + ops_expression(env, d.expression) + seq![optok(d.semicolon)]
}

/// `type name = type ;`: the emitter renders the alias before the name, the
/// formatter keeps source order.
pub open spec fn ops_typedef(env: WalkEnv, d: TypeDefDeclaration) -> Seq<MeasureOp>
    decreases d, 3int,
{
    seq![optok(d.kw)] + (if env.emit {
        ops_scalar_type(env, d.ty.scalar) + seq![
            MeasureOp::Start(KIND_IDENTIFIER),
            ident_op(env, d.identifier),
            MeasureOp::Finish(KIND_IDENTIFIER),
        ] + (match d.ty.array {
            Option::Some(a) => seq![MeasureOp::Start(KIND_ARRAY)] + ops_array_dims(env, a) + seq![
                MeasureOp::Finish(KIND_ARRAY),
            ],
            Option::None => Seq::empty(),
        })
    } else {
        seq![
            MeasureOp::Start(KIND_IDENTIFIER),
            ident_op(env, d.identifier),
            MeasureOp::Finish(KIND_IDENTIFIER),
            optok(d.equ),
        ] + ops_array_type(env, d.ty)
    }) + seq![optok(d.semicolon)]
}

/// `assign target = value ;`: one identifier cell around the target.
pub open spec fn ops_assign(env: WalkEnv, d: AssignDeclaration) -> Seq<MeasureOp>
    decreases d, 4int,
{
    seq![optok(d.kw), MeasureOp::Start(KIND_IDENTIFIER)] + ops_hier_target(env, d.target) + seq![
        MeasureOp::Finish(KIND_IDENTIFIER),
        optok(d.equ),
    ] + ops_expression(env, d.expression) + seq![optok(d.semicolon)]
}

/// `name : type ;` in a struct or union body.
pub open spec fn ops_struct_item(env: WalkEnv, d: StructUnionItem) -> Seq<MeasureOp>
    decreases d, 3int,
{
    seq![
        MeasureOp::Start(KIND_IDENTIFIER),
        ident_op(env, d.identifier),
        MeasureOp::Finish(KIND_IDENTIFIER),
        optok(d.colon),
    ] + ops_scalar_type(env, d.ty) + seq![optok(d.semicolon)]
}

pub open spec fn ops_struct_items(env: WalkEnv, v: Vec<StructUnionItem>, i: int) -> Seq<MeasureOp>
    decreases v, v@.len() - i,
{
    if i < 0 || i >= v@.len() {
        Seq::empty()
    } else {
        ops_struct_item(env, v@[i]) + ops_struct_items(env, v, i + 1)
    }
}

/// `name : direction` in a modport body.
pub open spec fn ops_modport_item(env: WalkEnv, d: ModportItem) -> Seq<MeasureOp>
    decreases d, 3int,
{
    seq![
        MeasureOp::Start(KIND_IDENTIFIER),
        ident_op(env, d.identifier),
        MeasureOp::Finish(KIND_IDENTIFIER),
        optok(d.colon),
    ] + ops_direction(env, d.direction)
}

pub open spec fn ops_modport_items(env: WalkEnv, v: Vec<ModportItem>, i: int) -> Seq<MeasureOp>
    decreases v, v@.len() - i,
{
    if i < 0 || i >= v@.len() {
        Seq::empty()
    } else {
        ops_modport_item(env, v@[i]) + ops_modport_items(env, v, i + 1)
    }
}

pub open spec fn ops_members(v: Vec<Token>, i: int) -> Seq<MeasureOp>
    decreases v, v@.len() - i,
{
    if i < 0 || i >= v@.len() {
        Seq::empty()
    } else {
        seq![optok(v@[i])] + ops_members(v, i + 1)
    }
}

/// `param|const name : type = value`: exactly four cells, in order -
/// parameter keyword (rewritten by the emitter), identifier, type (a
/// placeholder anchored at the parameter cell for an implicit type) and
/// value expression.
pub open spec fn ops_with_param(env: WalkEnv, d: WithParameterItem) -> Seq<MeasureOp>
    decreases d, 3int,
{
    seq![
        MeasureOp::Start(KIND_PARAMETER),
        if env.emit {
            MeasureOp::Tok(
                if d.is_param {
                    9u32
                } else {
                    10u32
                },
                Location {
                    line: d.kw.line,
                    column: d.kw.column,
                    length: if d.is_param {
                        9u32
                    } else {
                        10u32
                    },
                    duplicated: Option::None,
                },
            )
        } else {
            optok(d.kw)
        },
        MeasureOp::Finish(KIND_PARAMETER),
        MeasureOp::Start(KIND_IDENTIFIER),
        ident_op(env, d.identifier),
        MeasureOp::Finish(KIND_IDENTIFIER),
        optok(d.colon),
    ] + (match d.ty {
        ConstTypeGroup::Arr(at) => if env.emit && spec_implicit_scalar(at.scalar, env.implicit) {
            seq![
                MeasureOp::Start(KIND_TYPE),
                MeasureOp::DummyFrom(KIND_TYPE, KIND_PARAMETER),
                MeasureOp::Finish(KIND_TYPE),
            ]
        } else {
            ops_array_type(env, at)
        },
        ConstTypeGroup::TypeKeyword(t) => seq![MeasureOp::Start(KIND_TYPE)] + (if env.emit {
            if spec_implicit_type(env.implicit) {
                seq![MeasureOp::DummyFrom(KIND_TYPE, KIND_PARAMETER)]
            } else {
                seq![optok(t), MeasureOp::Gap(1u32)]
            }
        } else {
            seq![optok(t)]
        }) + seq![MeasureOp::Finish(KIND_TYPE)],
    }) + seq![optok(d.equ), MeasureOp::Start(KIND_EXPRESSION)] + ops_expression(env, d.expression)
        + seq![MeasureOp::Finish(KIND_EXPRESSION)]
}

pub open spec fn ops_param_items(env: WalkEnv, v: Vec<WithParameterItem>, i: int) -> Seq<MeasureOp>
    decreases v, v@.len() - i,
{
    if i < 0 || i >= v@.len() {
        Seq::empty()
    } else {
        ops_with_param(env, v@[i]) + ops_param_items(env, v, i + 1)
    }
}

/// `name : direction [domain] type` in a port list: one identifier cell, the
/// direction cell, the formatter's clock-domain cell (anchored at the
/// direction keyword, or at the colon for an interface port), then the type
/// cells; an abstract port measures the interface keyword and dimensions.
pub open spec fn ops_port_item(env: WalkEnv, d: PortDeclarationItem) -> Seq<MeasureOp>
    decreases d, 3int,
{
    seq![
        MeasureOp::Start(KIND_IDENTIFIER),
        ident_op(env, d.identifier),
        MeasureOp::Finish(KIND_IDENTIFIER),
        optok(d.colon),
    ] + (match d.port {
        PortTypeGroup::Concrete { direction, clock_domain, ty } => ops_direction(env, direction)
            + (if env.emit {
            Seq::empty()
        } else {
            ops_clock_domain(clock_domain, tok_loc(spec_direction_token(direction)))
        }) + ops_array_type(env, ty),
        PortTypeGroup::Abstract { clock_domain, interface, array } => (if env.emit {
            Seq::empty()
        } else {
            ops_clock_domain(clock_domain, tok_loc(d.colon))
        }) + seq![optok(interface)] + (match array {
            Option::Some(a) => ops_array_dims(env, a),
            Option::None => Seq::empty(),
        }),
    })
}

pub open spec fn ops_port_items(env: WalkEnv, v: Vec<PortDeclarationItem>, i: int) -> Seq<
    MeasureOp,
>
    decreases v, v@.len() - i,
{
    if i < 0 || i >= v@.len() {
        Seq::empty()
    } else {
        ops_port_item(env, v@[i]) + ops_port_items(env, v, i + 1)
    }
}

/// `name : value` or bare `name` in an instance parameter list: the bare form
/// re-emits the identifier, so its synthetic copy gets its own expression
/// cell in emitter mode, and the formatter inserts the missing `: ` directly.
pub open spec fn ops_inst_param_item(env: WalkEnv, d: InstParameterItem) -> Seq<MeasureOp>
    decreases d, 3int,
{
    seq![
        MeasureOp::Start(KIND_IDENTIFIER),
        ident_op(env, d.identifier),
        MeasureOp::Finish(KIND_IDENTIFIER),
    ] + (match d.value {
        Option::Some(ce) => seq![
            optok(ce.colon),
            MeasureOp::Gap(1u32),
            MeasureOp::Start(KIND_EXPRESSION),
        ] + ops_expression(env, ce.expression) + seq![MeasureOp::Finish(KIND_EXPRESSION)],
        Option::None => if env.emit {
            seq![
                MeasureOp::Start(KIND_EXPRESSION),
                MeasureOp::Dup(
                    KIND_EXPRESSION,
                    d.identifier.length,
                    Location {
                        line: d.identifier.line,
                        column: d.identifier.column,
                        length: d.identifier.length,
                        duplicated: Option::Some(0usize),
                    },
                ),
                MeasureOp::Finish(KIND_EXPRESSION),
            ]
        } else {
            seq![
                MeasureOp::Pad(tok_loc(d.identifier), 2u64),
                MeasureOp::Start(KIND_EXPRESSION),
                MeasureOp::DummyAt(KIND_EXPRESSION, tok_loc(d.identifier)),
                MeasureOp::Finish(KIND_EXPRESSION),
            ]
        },
    })
}

pub open spec fn ops_inst_param_items(env: WalkEnv, v: Vec<InstParameterItem>, i: int) -> Seq<
    MeasureOp,
>
    decreases v, v@.len() - i,
{
    if i < 0 || i >= v@.len() {
        Seq::empty()
    } else {
        ops_inst_param_item(env, v@[i]) + ops_inst_param_items(env, v, i + 1)
    }
}

/// As the parameter item; the emitter's synthetic copy carries the connected
/// signal's prefix and suffix.
pub open spec fn ops_inst_port_item(env: WalkEnv, d: InstPortItem) -> Seq<MeasureOp>
    decreases d, 3int,
{
    seq![
        MeasureOp::Start(KIND_IDENTIFIER),
        ident_op(env, d.identifier),
        MeasureOp::Finish(KIND_IDENTIFIER),
    ] + (match d.value {
        Option::Some(ce) => seq![
            optok(ce.colon),
            MeasureOp::Gap(1u32),
            MeasureOp::Start(KIND_EXPRESSION),
        ] + ops_expression(env, ce.expression) + seq![MeasureOp::Finish(KIND_EXPRESSION)],
        Option::None => if env.emit {
            seq![
                MeasureOp::Start(KIND_EXPRESSION),
                MeasureOp::Dup(
                    KIND_EXPRESSION,
                    sat32(d.identifier.length, spec_ps_extra(env.st, env.nt, d.identifier)),
                    Location {
                        line: d.identifier.line,
                        column: d.identifier.column,
                        length: sat32(
                            d.identifier.length,
                            spec_ps_extra(env.st, env.nt, d.identifier),
                        ),
                        duplicated: Option::Some(0usize),
                    },
                ),
                MeasureOp::Finish(KIND_EXPRESSION),
            ]
        } else {
            seq![
                MeasureOp::Pad(tok_loc(d.identifier), 2u64),
                MeasureOp::Start(KIND_EXPRESSION),
                MeasureOp::DummyAt(KIND_EXPRESSION, tok_loc(d.identifier)),
                MeasureOp::Finish(KIND_EXPRESSION),
            ]
        },
    })
}

pub open spec fn ops_inst_port_items(env: WalkEnv, v: Vec<InstPortItem>, i: int) -> Seq<MeasureOp>
    decreases v, v@.len() - i,
{
    if i < 0 || i >= v@.len() {
        Seq::empty()
    } else {
        ops_inst_port_item(env, v@[i]) + ops_inst_port_items(env, v, i + 1)
    }
}

/// `inst name : Target [dims] #(params) (ports) ;`: a single-line instance
/// aligns only its name and stops right after the target, so nothing later
/// contributes to alignment.
pub open spec fn ops_inst(env: WalkEnv, d: InstDeclaration) -> Seq<MeasureOp>
    decreases d, 3int,
{
    seq![optok(d.kw)] + (if d.ports is None {
        seq![
            MeasureOp::Start(KIND_IDENTIFIER),
            ident_op(env, d.identifier),
            MeasureOp::Finish(KIND_IDENTIFIER),
            optok(d.colon),
        ] + ops_scoped_id(env, d.target)
    } else {
        seq![ident_op(env, d.identifier), optok(d.colon)] + ops_scoped_id(env, d.target) + (
        match d.array {
            Option::Some(a) => ops_array_dims(env, a),
            Option::None => Seq::empty(),
        }) + (match d.parameters {
            Option::Some(p) => seq![optok(p.hash), optok(p.l_paren)] + ops_inst_param_items(
                env,
                p.items,
                0,
            ) + seq![optok(p.r_paren)],
            Option::None => Seq::empty(),
        }) + (match d.ports {
            Option::Some(p) => seq![optok(p.l_paren)] + ops_inst_port_items(env, p.items, 0)
                + seq![optok(p.r_paren)],
            Option::None => Seq::empty(),
        }) + seq![optok(d.semicolon)]
    })
}

/// `target op= value ;`: the target and the assignment operator each form a
/// cell.
pub open spec fn ops_statement(env: WalkEnv, d: IdentifierStatement) -> Seq<MeasureOp>
    decreases d, 3int,
{
    seq![MeasureOp::Start(KIND_IDENTIFIER)] + ops_expr_ident(env, d.target) + seq![
        MeasureOp::Finish(KIND_IDENTIFIER),
        MeasureOp::Start(KIND_ASSIGNMENT),
        optok(d.operator),
        MeasureOp::Finish(KIND_ASSIGNMENT),
    ] + ops_expression(env, d.expression) + seq![optok(d.semicolon)]
}

pub open spec fn ops_statements(env: WalkEnv, v: Vec<IdentifierStatement>, i: int) -> Seq<
    MeasureOp,
>
    decreases v, v@.len() - i,
{
    if i < 0 || i >= v@.len() {
        Seq::empty()
    } else {
        ops_statement(env, v@[i]) + ops_statements(env, v, i + 1)
    }
}

pub open spec fn ops_module_item(env: WalkEnv, m: ModuleItem) -> Seq<MeasureOp>
    decreases m, 5int,
{
    match m {
        ModuleItem::Let(d) => ops_let(env, d),
        ModuleItem::Var(d) => ops_var(env, d),
        ModuleItem::Const(d) => ops_const(env, d),
        ModuleItem::TypeDef(d) => ops_typedef(env, d),
        ModuleItem::Assign(d) => ops_assign(env, d),
        ModuleItem::StructUnion(d) => seq![
            optok(d.kw),
            ident_op(env, d.identifier),
            optok(d.l_brace),
        ] + ops_struct_items(env, d.items, 0) + seq![optok(d.r_brace)],
        ModuleItem::Enum(d) => seq![optok(d.kw), ident_op(env, d.identifier), optok(d.l_brace)]
            + ops_members(d.members, 0) + seq![optok(d.r_brace)],
        ModuleItem::Modport(d) => seq![optok(d.kw), ident_op(env, d.identifier), optok(d.l_brace)]
            + ops_modport_items(env, d.items, 0) + seq![optok(d.r_brace)],
        ModuleItem::Inst(d) => ops_inst(env, d),
        ModuleItem::Always(d) => seq![optok(d.kw), optok(d.l_brace)] + ops_statements(
            env,
            d.statements,
            0,
        ) + seq![optok(d.r_brace)],
        ModuleItem::Import(d) => seq![optok(d.kw)] + ops_scoped_id(env, d.target) + seq![
            optok(d.semicolon),
        ],
    }
}

pub open spec fn ops_module_items(env: WalkEnv, v: Vec<ModuleItem>, i: int) -> Seq<MeasureOp>
    decreases v, v@.len() - i,
{
    if i < 0 || i >= v@.len() {
        Seq::empty()
    } else {
        ops_module_item(env, v@[i]) + ops_module_items(env, v, i + 1)
    }
}

pub open spec fn ops_module(env: WalkEnv, d: ModuleDeclaration) -> Seq<MeasureOp>
    decreases d, 3int,
{
    seq![optok(d.kw), ident_op(env, d.identifier)] + (match d.parameters {
        Option::Some(p) => seq![optok(p.hash), optok(p.l_paren)] + ops_param_items(env, p.items, 0)
            + seq![optok(p.r_paren)],
        Option::None => Seq::empty(),
    }) + (match d.ports {
        Option::Some(p) => seq![optok(p.l_paren)] + ops_port_items(env, p.items, 0) + seq![
            optok(p.r_paren),
        ],
        Option::None => Seq::empty(),
    }) + seq![optok(d.l_brace)] + ops_module_items(env, d.items, 0) + seq![optok(d.r_brace)]
}

pub open spec fn ops_interface(env: WalkEnv, d: InterfaceDeclaration) -> Seq<MeasureOp>
    decreases d, 3int,
{
    seq![optok(d.kw), ident_op(env, d.identifier)] + (match d.parameters {
        Option::Some(p) => seq![optok(p.hash), optok(p.l_paren)] + ops_param_items(env, p.items, 0)
            + seq![optok(p.r_paren)],
        Option::None => Seq::empty(),
    }) + seq![optok(d.l_brace)] + ops_module_items(env, d.items, 0) + seq![optok(d.r_brace)]
}

pub open spec fn ops_package(env: WalkEnv, d: PackageDeclaration) -> Seq<MeasureOp>
    decreases d, 3int,
{
    seq![optok(d.kw), ident_op(env, d.identifier), optok(d.l_brace)] + ops_module_items(
        env,
        d.items,
        0,
    ) + seq![optok(d.r_brace)]
}

pub open spec fn ops_descriptions(env: WalkEnv, v: Vec<Description>, i: int) -> Seq<MeasureOp>
    decreases v, v@.len() - i,
{
    if i < 0 || i >= v@.len() {
        Seq::empty()
    } else {
        (match v@[i] {
            Description::Module(d) => ops_module(env, d),
            Description::Interface(d) => ops_interface(env, d),
            Description::Package(d) => ops_package(env, d),
            Description::Import(d) => seq![optok(d.kw)] + ops_scoped_id(env, d.target) + seq![
                optok(d.semicolon),
            ],
        }) + ops_descriptions(env, v, i + 1)
    }
}

/// One walk of a source file: every production's cell operations in source
/// order, then the closing of every group.
pub open spec fn ops_veryl(env: WalkEnv, t: Veryl) -> Seq<MeasureOp>
    decreases t, 3int,
{
    ops_descriptions(env, t.descriptions, 0) + seq![MeasureOp::GroupAll]
}

impl Walk {
    /// `let name : [domain] type = value ;`
    fn let_decl(&mut self, st: &SymbolTable, nt: &NamespaceTable, d: &LetDeclaration)
        requires
            old(self).wf(),
            old(self).all_off(),
            st.wf(),
            nt.wf(),
        ensures
            final(self).wf(),
            final(self).all_off(),
            final(self).inserts == old(self).inserts,
            final(self).emit == old(self).emit,
            final(self).implicit == old(self).implicit,
            final(self).set.ops() == old(self).set.ops() + ops_let(
                env_of(*old(self), st@, nt@),
                *d,
            ),
        decreases *d, 4int,
    {
        self.set.token_all(d.kw);
        self.set.start_item(KIND_IDENTIFIER);
        self.ident(st, nt, d.identifier);
        self.set.finish_item(KIND_IDENTIFIER);
        self.set.token_all(d.colon);
        if !self.emit {
            self.set.start_item(KIND_CLOCK_DOMAIN);
            match &d.clock_domain {
                Option::Some(cd) => {
                    self.set.token_all(*cd);
                    self.set.space_all(1);
                },
                Option::None => {
                    self.set.dummy_token_at(KIND_CLOCK_DOMAIN, d.colon);
                },
            }
            self.set.finish_item(KIND_CLOCK_DOMAIN);
        }
        self.array_type(st, nt, &d.ty);
        self.set.token_all(d.equ);
        self.expression(st, nt, &d.expression);
        self.set.token_all(d.semicolon);
        proof {
            assert(self.set.enables() =~= old(self).set.enables());
            assert(self.set.ops() =~= old(self).set.ops() + ops_let(
                env_of(*old(self), st@, nt@),
                *d,
            ));
        }
    }

    /// `var name : [domain] type ;`
    fn var_decl(&mut self, st: &SymbolTable, nt: &NamespaceTable, d: &VarDeclaration)
        requires
            old(self).wf(),
            old(self).all_off(),
            st.wf(),
            nt.wf(),
        ensures
            final(self).wf(),
            final(self).all_off(),
            final(self).inserts == old(self).inserts,
            final(self).emit == old(self).emit,
            final(self).implicit == old(self).implicit,
            final(self).set.ops() == old(self).set.ops() + ops_var(
                env_of(*old(self), st@, nt@),
                *d,
            ),
        decreases *d, 4int,
    {
        self.set.token_all(d.kw);
        self.set.start_item(KIND_IDENTIFIER);
        self.ident(st, nt, d.identifier);
        self.set.finish_item(KIND_IDENTIFIER);
        self.set.token_all(d.colon);
        if !self.emit {
            self.set.start_item(KIND_CLOCK_DOMAIN);
            match &d.clock_domain {
                Option::Some(cd) => {
                    self.set.token_all(*cd);
                    self.set.space_all(1);
                },
                Option::None => {
                    self.set.dummy_token_at(KIND_CLOCK_DOMAIN, d.colon);
                },
            }
            self.set.finish_item(KIND_CLOCK_DOMAIN);
        }
        self.array_type(st, nt, &d.ty);
        self.set.token_all(d.semicolon);
        proof {
            assert(self.set.enables() =~= old(self).set.enables());
            assert(self.set.ops() =~= old(self).set.ops() + ops_var(
                env_of(*old(self), st@, nt@),
                *d,
            ));
        }
    }

    /// `const name : type = value ;`; the emitter renders the keyword at its
    /// target spelling and suppresses implicit parameter types, leaving a
    /// placeholder at the keyword so later columns still align.
    fn const_decl(&mut self, st: &SymbolTable, nt: &NamespaceTable, d: &ConstDeclaration)
        requires
            old(self).wf(),
            old(self).all_off(),
            st.wf(),
            nt.wf(),
        ensures
            final(self).wf(),
            final(self).all_off(),
            final(self).inserts == old(self).inserts,
            final(self).emit == old(self).emit,
            final(self).implicit == old(self).implicit,
            final(self).set.ops() == old(self).set.ops() + ops_const(
                env_of(*old(self), st@, nt@),
                *d,
            ),
        decreases *d, 4int,
    {
        if self.emit {
            let loc = Location {
                line: d.kw.line,
                column: d.kw.column,
                length: 10,
                duplicated: None,
            };
            self.set.rendered_all(10, loc);
        } else {
            self.set.token_all(d.kw);
        }
        self.set.start_item(KIND_IDENTIFIER);
        self.ident(st, nt, d.identifier);
        self.set.finish_item(KIND_IDENTIFIER);
        self.set.token_all(d.colon);
        match &d.ty {
            ConstTypeGroup::Arr(at) => {
                if self.emit && self.is_implicit_scalar_type(&at.scalar) {
                    self.set.start_item(KIND_TYPE);
                    self.set.dummy_token_at(KIND_TYPE, d.kw);
                    self.set.finish_item(KIND_TYPE);
                } else {
                    self.array_type(st, nt, at);
                }
            },
            ConstTypeGroup::TypeKeyword(t) => {
                self.set.start_item(KIND_TYPE);
                if self.emit {
                    if self.is_implicit_type() {
                        self.set.dummy_token_at(KIND_TYPE, d.kw);
                    } else {
                        self.set.token_all(*t);
                        self.set.space_all(1);
                    }
                } else {
                    self.set.token_all(*t);
                }
                self.set.finish_item(KIND_TYPE);
            },
        }
        self.set.token_all(d.equ);
        self.expression(st, nt, &d.expression);
        self.set.token_all(d.semicolon);
        proof {
            assert(self.set.enables() =~= old(self).set.enables());
            assert(self.set.ops() =~= old(self).set.ops() + ops_const(
                env_of(*old(self), st@, nt@),
                *d,
            ));
        }
    }

    /// `type name = type ;` - the emitter renders the alias before the name,
    /// the formatter keeps source order.
    fn typedef_decl(&mut self, st: &SymbolTable, nt: &NamespaceTable, d: &TypeDefDeclaration)
        requires
            old(self).wf(),
            old(self).all_off(),
            st.wf(),
            nt.wf(),
        ensures
            final(self).wf(),
            final(self).all_off(),
            final(self).inserts == old(self).inserts,
            final(self).emit == old(self).emit,
            final(self).implicit == old(self).implicit,
            final(self).set.ops() == old(self).set.ops() + ops_typedef(
                env_of(*old(self), st@, nt@),
                *d,
            ),
        decreases *d, 4int,
    {
        self.set.token_all(d.kw);
        if self.emit {
            self.scalar_type(st, nt, &d.ty.scalar);
            self.set.start_item(KIND_IDENTIFIER);
            self.ident(st, nt, d.identifier);
            self.set.finish_item(KIND_IDENTIFIER);
            match &d.ty.array {
                Option::Some(a) => {
                    self.set.start_item(KIND_ARRAY);
                    self.array_dims(st, nt, a);
                    self.set.finish_item(KIND_ARRAY);
                },
                Option::None => {},
            }
        } else {
            self.set.start_item(KIND_IDENTIFIER);
            self.ident(st, nt, d.identifier);
            self.set.finish_item(KIND_IDENTIFIER);
            self.set.token_all(d.equ);
            self.array_type(st, nt, &d.ty);
        }
        self.set.token_all(d.semicolon);
        proof {
            assert(self.set.enables() =~= old(self).set.enables());
            assert(self.set.ops() =~= old(self).set.ops() + ops_typedef(
                env_of(*old(self), st@, nt@),
                *d,
            ));
        }
    }

    /// `assign target = value ;`
    fn assign_decl(&mut self, st: &SymbolTable, nt: &NamespaceTable, d: &AssignDeclaration)
        requires
            old(self).wf(),
            old(self).all_off(),
            st.wf(),
            nt.wf(),
        ensures
            final(self).wf(),
            final(self).all_off(),
            final(self).inserts == old(self).inserts,
            final(self).emit == old(self).emit,
            final(self).implicit == old(self).implicit,
            final(self).set.ops() == old(self).set.ops() + ops_assign(
                env_of(*old(self), st@, nt@),
                *d,
            ),
        decreases *d, 5int,
    {
        self.set.token_all(d.kw);
        self.set.start_item(KIND_IDENTIFIER);
        self.hier_target(st, nt, &d.target);
        self.set.finish_item(KIND_IDENTIFIER);
        self.set.token_all(d.equ);
        self.expression(st, nt, &d.expression);
        self.set.token_all(d.semicolon);
        proof {
            assert(self.set.enables() =~= old(self).set.enables());
            assert(self.set.ops() =~= old(self).set.ops() + ops_assign(
                env_of(*old(self), st@, nt@),
                *d,
            ));
        }
    }

    fn modifiers(&mut self, st: &SymbolTable, nt: &NamespaceTable, v: &Vec<Token>, i: usize)
        requires
            old(self).wf(),
            st.wf(),
            nt.wf(),
            i <= v@.len(),
        ensures
            final(self).wf(),
            final(self).set.enables() == old(self).set.enables(),
            final(self).inserts == old(self).inserts,
            final(self).emit == old(self).emit,
            final(self).implicit == old(self).implicit,
            final(self).set.ops() == old(self).set.ops() + ops_modifiers(*v, i as int),
        decreases *v, v@.len() - i,
    {
        if i < v.len() {
            self.set.token_all(v[i]);
            self.set.space_all(1);
            self.modifiers(st, nt, v, i + 1);
        }
        proof {
            assert(self.set.ops() =~= old(self).set.ops() + ops_modifiers(*v, i as int));
        }
    }

    /// The concrete and packed part of a declared type: always exactly one
    /// TYPE cell then one WIDTH cell, the latter a placeholder anchored at
    /// the TYPE cell's end when no width is written, so the width column
    /// exists for every declaration.
    #[verifier::rlimit(100)]
    #[verifier::spinoff_prover]
    fn scalar_type(&mut self, st: &SymbolTable, nt: &NamespaceTable, s: &ScalarType)
        requires
            old(self).wf(),
            old(self).all_off(),
            st.wf(),
            nt.wf(),
        ensures
            final(self).wf(),
            final(self).all_off(),
            final(self).inserts == old(self).inserts,
            final(self).emit == old(self).emit,
            final(self).implicit == old(self).implicit,
            final(self).set.ops() == old(self).set.ops() + ops_scalar_type(
                env_of(*old(self), st@, nt@),
                *s,
            ),
        decreases *s, 4int,
    {
        let ghost pre = self.set.ops();
        let ghost env = env_of(*old(self), st@, nt@);
        self.set.start_item(KIND_TYPE);
        if self.emit {
            // room for the implicit-type substitution
            self.set.space_all(1);
        }
        self.modifiers(st, nt, &s.modifiers, 0);
        let ghost mid1 = self.set.ops();
        proof {
            assert(mid1 =~= pre + seq![MeasureOp::Start(KIND_TYPE)] + (if env.emit {
                seq![MeasureOp::Gap(1u32)]
            } else {
                Seq::<MeasureOp>::empty()
            }) + ops_modifiers(s.modifiers, 0));
        }
        match &s.kind {
            ScalarKind::UserDefined { identifier, width } => {
                self.scoped_id(st, nt, identifier);
                self.set.finish_item(KIND_TYPE);
                self.set.start_item(KIND_WIDTH);
                match width {
                    Option::Some(w) => {
                        if self.emit {
                            self.set.space_all(1);
                        }
                        self.width(st, nt, w);
                    },
                    Option::None => {
                        self.set.dummy_from(KIND_WIDTH, KIND_TYPE);
                    },
                }
            },
            ScalarKind::Variable { token, kind, width } => {
                if self.emit {
                    let len = variable_len(*kind, *token);
                    let loc = Location {
                        line: token.line,
                        column: token.column,
                        length: len,
                        duplicated: None,
                    };
                    self.set.rendered_all(len, loc);
                } else {
                    self.set.token_all(*token);
                }
                self.set.finish_item(KIND_TYPE);
                self.set.start_item(KIND_WIDTH);
                match width {
                    Option::Some(w) => {
                        if self.emit {
                            self.set.space_all(1);
                        }
                        self.width(st, nt, w);
                    },
                    Option::None => {
                        self.set.dummy_from(KIND_WIDTH, KIND_TYPE);
                    },
                }
            },
            ScalarKind::Fixed { token, kind } => {
                if self.emit {
                    let len = fixed_len(*kind, *token);
                    let loc = Location {
                        line: token.line,
                        column: token.column,
                        length: len,
                        duplicated: None,
                    };
                    self.set.rendered_all(len, loc);
                } else {
                    self.set.token_all(*token);
                }
                self.set.finish_item(KIND_TYPE);
                self.set.start_item(KIND_WIDTH);
                self.set.dummy_from(KIND_WIDTH, KIND_TYPE);
            },
        }
        let ghost mid2 = self.set.ops();
        proof {
            assert(mid2 =~= mid1 + (match s.kind {
                ScalarKind::UserDefined { identifier, width } => ops_scoped_id(env, identifier)
                    + seq![MeasureOp::Finish(KIND_TYPE), MeasureOp::Start(KIND_WIDTH)]
                    + ops_width_opt(env, width),
                ScalarKind::Variable { token, kind, width } => seq![
                    var_tok_op(env, token, kind),
                    MeasureOp::Finish(KIND_TYPE),
                    MeasureOp::Start(KIND_WIDTH),
                ] + ops_width_opt(env, width),
                ScalarKind::Fixed { token, kind } => seq![
                    fixed_tok_op(env, token, kind),
                    MeasureOp::Finish(KIND_TYPE),
                    MeasureOp::Start(KIND_WIDTH),
                    MeasureOp::DummyFrom(KIND_WIDTH, KIND_TYPE),
                ],
            }));
        }
        self.set.finish_item(KIND_WIDTH);
        proof {
            assert(self.set.enables() =~= old(self).set.enables());
            assert(self.set.ops() =~= mid2.push(MeasureOp::Finish(KIND_WIDTH)));
            assert(self.set.ops() =~= old(self).set.ops() + ops_scalar_type(env, *s));
        }
    }

    /// A declared type with unpacked dimensions: exactly one ARRAY cell, a
    /// placeholder when no dimensions are written, anchored at the identifier
    /// column for the emitter and at the width column for the formatter.
    fn array_type(&mut self, st: &SymbolTable, nt: &NamespaceTable, a: &ArrayType)
        requires
            old(self).wf(),
            old(self).all_off(),
            st.wf(),
            nt.wf(),
        ensures
            final(self).wf(),
            final(self).all_off(),
            final(self).inserts == old(self).inserts,
            final(self).emit == old(self).emit,
            final(self).implicit == old(self).implicit,
            final(self).set.ops() == old(self).set.ops() + ops_array_type(
                env_of(*old(self), st@, nt@),
                *a,
            ),
        decreases *a, 4int,
    {
        self.scalar_type(st, nt, &a.scalar);
        self.set.start_item(KIND_ARRAY);
        match &a.array {
            Option::Some(d) => {
                self.set.space_all(1);
                self.array_dims(st, nt, d);
            },
            Option::None => {
                if self.emit {
                    self.set.dummy_from(KIND_ARRAY, KIND_IDENTIFIER);
                } else {
                    self.set.dummy_from(KIND_ARRAY, KIND_WIDTH);
                }
            },
        }
        self.set.finish_item(KIND_ARRAY);
        proof {
            assert(self.set.enables() =~= old(self).set.enables());
            assert(self.set.ops() =~= old(self).set.ops() + ops_array_type(
                env_of(*old(self), st@, nt@),
                *a,
            ));
        }
    }

    /// A port direction: exactly one cell of the direction column holding the
    /// keyword; a modport direction is skipped entirely by the emitter, whose
    /// output spells it differently.
    fn direction(&mut self, st: &SymbolTable, nt: &NamespaceTable, d: &Direction)
        requires
            old(self).wf(),
            old(self).all_off(),
            st.wf(),
            nt.wf(),
        ensures
            final(self).wf(),
            final(self).all_off(),
            final(self).inserts == old(self).inserts,
            final(self).emit == old(self).emit,
            final(self).implicit == old(self).implicit,
            final(self).set.ops() == old(self).set.ops() + ops_direction(
                env_of(*old(self), st@, nt@),
                *d,
            ),
    {
        let skip = self.emit && matches!(d, Direction::ModportPort(_));
        if !skip {
            self.set.start_item(KIND_DIRECTION);
            match d {
                Direction::Input(t) => self.set.token_all(*t),
                Direction::Output(t) => self.set.token_all(*t),
                Direction::Inout(t) => self.set.token_all(*t),
                Direction::RefPort(t) => self.set.token_all(*t),
                Direction::ModportPort(t) => self.set.token_all(*t),
                Direction::ImportPort(t) => self.set.token_all(*t),
            }
            self.set.finish_item(KIND_DIRECTION);
        }
        proof {
            assert(self.set.enables() =~= old(self).set.enables());
            assert(self.set.ops() =~= old(self).set.ops() + ops_direction(
                env_of(*old(self), st@, nt@),
                *d,
            ));
        }
    }

    /// `param|const name : type = value` in a parameter list: exactly four
    /// cells in order - keyword, identifier, type (a placeholder anchored at
    /// the keyword cell for an implicit type), value.
    #[verifier::rlimit(100)]
    #[verifier::spinoff_prover]
    fn with_param_item(&mut self, st: &SymbolTable, nt: &NamespaceTable, d: &WithParameterItem)
        requires
            old(self).wf(),
            old(self).all_off(),
            st.wf(),
            nt.wf(),
        ensures
            final(self).wf(),
            final(self).all_off(),
            final(self).inserts == old(self).inserts,
            final(self).emit == old(self).emit,
            final(self).implicit == old(self).implicit,
            final(self).set.ops() == old(self).set.ops() + ops_with_param(
                env_of(*old(self), st@, nt@),
                *d,
            ),
        decreases *d, 4int,
    {
        self.set.start_item(KIND_PARAMETER);
        if self.emit {
            let len: u32 = if d.is_param {
                9
            } else {
                10
            };
            let loc = Location {
                line: d.kw.line,
                column: d.kw.column,
                length: len,
                duplicated: None,
            };
            self.set.rendered_all(len, loc);
        } else {
            self.set.token_all(d.kw);
        }
        self.set.finish_item(KIND_PARAMETER);
        self.set.start_item(KIND_IDENTIFIER);
        self.ident(st, nt, d.identifier);
        self.set.finish_item(KIND_IDENTIFIER);
        self.set.token_all(d.colon);
        match &d.ty {
            ConstTypeGroup::Arr(at) => {
                if self.emit && self.is_implicit_scalar_type(&at.scalar) {
                    self.set.start_item(KIND_TYPE);
                    self.set.dummy_from(KIND_TYPE, KIND_PARAMETER);
                    self.set.finish_item(KIND_TYPE);
                } else {
                    self.array_type(st, nt, at);
                }
            },
            ConstTypeGroup::TypeKeyword(t) => {
                self.set.start_item(KIND_TYPE);
                if self.emit {
                    if self.is_implicit_type() {
                        self.set.dummy_from(KIND_TYPE, KIND_PARAMETER);
                    } else {
                        self.set.token_all(*t);
                        self.set.space_all(1);
                    }
                } else {
                    self.set.token_all(*t);
                }
                self.set.finish_item(KIND_TYPE);
            },
        }
        self.set.token_all(d.equ);
        self.set.start_item(KIND_EXPRESSION);
        self.expression(st, nt, &d.expression);
        self.set.finish_item(KIND_EXPRESSION);
        proof {
            assert(self.set.enables() =~= old(self).set.enables());
            assert(self.set.ops() =~= old(self).set.ops() + ops_with_param(
                env_of(*old(self), st@, nt@),
                *d,
            ));
        }
    }

    /// `name : direction [domain] type` in a port list: one identifier cell,
    /// the direction cell, the formatter's clock-domain cell, then the type
    /// cells; an abstract port measures the interface keyword and dimensions.
    #[verifier::rlimit(100)]
    #[verifier::spinoff_prover]
    fn port_item(&mut self, st: &SymbolTable, nt: &NamespaceTable, d: &PortDeclarationItem)
        requires
            old(self).wf(),
            old(self).all_off(),
            st.wf(),
            nt.wf(),
        ensures
            final(self).wf(),
            final(self).all_off(),
            final(self).inserts == old(self).inserts,
            final(self).emit == old(self).emit,
            final(self).implicit == old(self).implicit,
            final(self).set.ops() == old(self).set.ops() + ops_port_item(
                env_of(*old(self), st@, nt@),
                *d,
            ),
        decreases *d, 4int,
    {
        self.set.start_item(KIND_IDENTIFIER);
        self.ident(st, nt, d.identifier);
        self.set.finish_item(KIND_IDENTIFIER);
        self.set.token_all(d.colon);
        match &d.port {
            PortTypeGroup::Concrete { direction, clock_domain, ty } => {
                self.direction(st, nt, direction);
                if !self.emit {
                    self.set.start_item(KIND_CLOCK_DOMAIN);
                    match clock_domain {
                        Option::Some(cd) => {
                            self.set.token_all(*cd);
                            self.set.space_all(1);
                        },
                        Option::None => {
                            let anchor = match direction {
                                Direction::Input(t) => *t,
                                Direction::Output(t) => *t,
                                Direction::Inout(t) => *t,
                                Direction::RefPort(t) => *t,
                                Direction::ModportPort(t) => *t,
                                Direction::ImportPort(t) => *t,
                            };
                            self.set.dummy_token_at(KIND_CLOCK_DOMAIN, anchor);
                        },
                    }
                    self.set.finish_item(KIND_CLOCK_DOMAIN);
                }
                self.array_type(st, nt, ty);
            },
            PortTypeGroup::Abstract { clock_domain, interface, array } => {
                if !self.emit {
                    self.set.start_item(KIND_CLOCK_DOMAIN);
                    match clock_domain {
                        Option::Some(cd) => {
                            self.set.token_all(*cd);
                            self.set.space_all(1);
                        },
                        Option::None => {
                            self.set.dummy_token_at(KIND_CLOCK_DOMAIN, d.colon);
                        },
                    }
                    self.set.finish_item(KIND_CLOCK_DOMAIN);
                }
                self.set.token_all(*interface);
                match array {
                    Option::Some(a) => self.array_dims(st, nt, a),
                    Option::None => {},
                }
            },
        }
        proof {
            assert(self.set.enables() =~= old(self).set.enables());
            assert(self.set.ops() =~= old(self).set.ops() + ops_port_item(
                env_of(*old(self), st@, nt@),
                *d,
            ));
        }
    }
}

impl Walk {
    /// `inst name : Target [dims] #(params) (ports) ;` - a single-line
    /// instance aligns only its name and stops right after the target.
    #[verifier::rlimit(100)]
    #[verifier::spinoff_prover]
    fn inst_decl(&mut self, st: &SymbolTable, nt: &NamespaceTable, d: &InstDeclaration)
        requires
            old(self).wf(),
            old(self).all_off(),
            st.wf(),
            nt.wf(),
        ensures
            final(self).wf(),
            final(self).all_off(),
            final(self).emit == old(self).emit,
            final(self).implicit == old(self).implicit,
            final(self).set.ops() == old(self).set.ops() + ops_inst(
                env_of(*old(self), st@, nt@),
                *d,
            ),
        decreases *d, 4int,
    {
        let single_line = d.ports.is_none();
        self.set.token_all(d.kw);
        if single_line {
            self.set.start_item(KIND_IDENTIFIER);
        }
        self.ident(st, nt, d.identifier);
        if single_line {
            self.set.finish_item(KIND_IDENTIFIER);
        }
        self.set.token_all(d.colon);
        self.scoped_id(st, nt, &d.target);
        let ghost env = env_of(*old(self), st@, nt@);
        if single_line {
            proof {
                assert(self.set.enables() =~= old(self).set.enables());
                assert(self.set.ops() =~= old(self).set.ops() + ops_inst(env, *d));
            }
            return;
        }
        let ghost mid1 = self.set.ops();
        proof {
            assert(mid1 =~= old(self).set.ops() + seq![optok(d.kw)] + seq![
                ident_op(env, d.identifier),
                optok(d.colon),
            ] + ops_scoped_id(env, d.target));
        }
        match &d.array {
            Option::Some(a) => self.array_dims(st, nt, a),
            Option::None => {},
        }
        let ghost mid2 = self.set.ops();
        proof {
            assert(mid2 =~= mid1 + (match d.array {
                Option::Some(a) => ops_array_dims(env, a),
                Option::None => Seq::<MeasureOp>::empty(),
            }));
        }
        match &d.parameters {
            Option::Some(p) => {
                self.set.token_all(p.hash);
                self.set.token_all(p.l_paren);
                self.inst_param_items(st, nt, &p.items, 0);
                self.set.token_all(p.r_paren);
            },
            Option::None => {},
        }
        let ghost mid3 = self.set.ops();
        proof {
            assert(mid3 =~= mid2 + (match d.parameters {
                Option::Some(p) => seq![optok(p.hash), optok(p.l_paren)] + ops_inst_param_items(
                    env,
                    p.items,
                    0,
                ) + seq![optok(p.r_paren)],
                Option::None => Seq::<MeasureOp>::empty(),
            }));
        }
        match &d.ports {
            Option::Some(p) => {
                self.set.token_all(p.l_paren);
                self.inst_port_items(st, nt, &p.items, 0);
                self.set.token_all(p.r_paren);
            },
            Option::None => {},
        }
        let ghost mid4 = self.set.ops();
        proof {
            assert(mid4 =~= mid3 + (match d.ports {
                Option::Some(p) => seq![optok(p.l_paren)] + ops_inst_port_items(env, p.items, 0)
                    + seq![optok(p.r_paren)],
                Option::None => Seq::<MeasureOp>::empty(),
            }));
        }
        self.set.token_all(d.semicolon);
        proof {
            assert(self.set.enables() =~= old(self).set.enables());
            assert(self.set.ops() =~= mid4.push(optok(d.semicolon)));
            assert(self.set.ops() =~= old(self).set.ops() + ops_inst(env, *d));
        }
    }

    /// `name : value` or bare `name` in an instance parameter list: the bare
    /// form re-emits the identifier, so its synthetic copy gets its own
    /// expression cell in emitter mode; the formatter inserts the missing
    /// `: ` directly.
    fn inst_param_item(&mut self, st: &SymbolTable, nt: &NamespaceTable, d: &InstParameterItem)
        requires
            old(self).wf(),
            old(self).all_off(),
            st.wf(),
            nt.wf(),
        ensures
            final(self).wf(),
            final(self).all_off(),
            final(self).emit == old(self).emit,
            final(self).implicit == old(self).implicit,
            final(self).set.ops() == old(self).set.ops() + ops_inst_param_item(
                env_of(*old(self), st@, nt@),
                *d,
            ),
        decreases *d, 4int,
    {
        self.set.start_item(KIND_IDENTIFIER);
        self.ident(st, nt, d.identifier);
        self.set.finish_item(KIND_IDENTIFIER);
        match &d.value {
            Option::Some(ce) => {
                self.set.token_all(ce.colon);
                self.set.space_all(1);
                self.set.start_item(KIND_EXPRESSION);
                self.expression(st, nt, &ce.expression);
                self.set.finish_item(KIND_EXPRESSION);
            },
            Option::None => {
                if self.emit {
                    self.set.start_item(KIND_EXPRESSION);
                    self.set.duplicated_at(KIND_EXPRESSION, d.identifier, 0);
                    self.set.finish_item(KIND_EXPRESSION);
                } else {
                    self.insert_pad(Location::of_token(d.identifier), 2);
                    self.set.start_item(KIND_EXPRESSION);
                    self.set.dummy_token_at(KIND_EXPRESSION, d.identifier);
                    self.set.finish_item(KIND_EXPRESSION);
                }
            },
        }
        proof {
            assert(self.set.enables() =~= old(self).set.enables());
            assert(self.set.ops() =~= old(self).set.ops() + ops_inst_param_item(
                env_of(*old(self), st@, nt@),
                *d,
            ));
        }
    }

    fn inst_param_items(
        &mut self,
        st: &SymbolTable,
        nt: &NamespaceTable,
        v: &Vec<InstParameterItem>,
        i: usize,
    )
        requires
            old(self).wf(),
            old(self).all_off(),
            st.wf(),
            nt.wf(),
            i <= v@.len(),
        ensures
            final(self).wf(),
            final(self).all_off(),
            final(self).emit == old(self).emit,
            final(self).implicit == old(self).implicit,
            final(self).set.ops() == old(self).set.ops() + ops_inst_param_items(
                env_of(*old(self), st@, nt@),
                *v,
                i as int,
            ),
        decreases *v, v@.len() - i,
    {
        if i < v.len() {
            self.inst_param_item(st, nt, &v[i]);
            self.inst_param_items(st, nt, v, i + 1);
        }
        proof {
            assert(self.set.ops() =~= old(self).set.ops() + ops_inst_param_items(
                env_of(*old(self), st@, nt@),
                *v,
                i as int,
            ));
        }
    }

    /// As the parameter item; the emitter's synthetic copy carries the
    /// connected signal's prefix and suffix.
    fn inst_port_item(&mut self, st: &SymbolTable, nt: &NamespaceTable, d: &InstPortItem)
        requires
            old(self).wf(),
            old(self).all_off(),
            st.wf(),
            nt.wf(),
        ensures
            final(self).wf(),
            final(self).all_off(),
            final(self).emit == old(self).emit,
            final(self).implicit == old(self).implicit,
            final(self).set.ops() == old(self).set.ops() + ops_inst_port_item(
                env_of(*old(self), st@, nt@),
                *d,
            ),
        decreases *d, 4int,
    {
        self.set.start_item(KIND_IDENTIFIER);
        self.ident(st, nt, d.identifier);
        self.set.finish_item(KIND_IDENTIFIER);
        match &d.value {
            Option::Some(ce) => {
                self.set.token_all(ce.colon);
                self.set.space_all(1);
                self.set.start_item(KIND_EXPRESSION);
                self.expression(st, nt, &ce.expression);
                self.set.finish_item(KIND_EXPRESSION);
            },
            Option::None => {
                if self.emit {
                    let extra = self.prefix_suffix_extra(st, nt, d.identifier);
                    let t2 = Token {
                        length: add_sat32(d.identifier.length, extra),
                        ..d.identifier
                    };
                    self.set.start_item(KIND_EXPRESSION);
                    self.set.duplicated_at(KIND_EXPRESSION, t2, 0);
                    self.set.finish_item(KIND_EXPRESSION);
                } else {
                    self.insert_pad(Location::of_token(d.identifier), 2);
                    self.set.start_item(KIND_EXPRESSION);
                    self.set.dummy_token_at(KIND_EXPRESSION, d.identifier);
                    self.set.finish_item(KIND_EXPRESSION);
                }
            },
        }
        proof {
            assert(self.set.enables() =~= old(self).set.enables());
            assert(self.set.ops() =~= old(self).set.ops() + ops_inst_port_item(
                env_of(*old(self), st@, nt@),
                *d,
            ));
        }
    }

    fn inst_port_items(
        &mut self,
        st: &SymbolTable,
        nt: &NamespaceTable,
        v: &Vec<InstPortItem>,
        i: usize,
    )
        requires
            old(self).wf(),
            old(self).all_off(),
            st.wf(),
            nt.wf(),
            i <= v@.len(),
        ensures
            final(self).wf(),
            final(self).all_off(),
            final(self).emit == old(self).emit,
            final(self).implicit == old(self).implicit,
            final(self).set.ops() == old(self).set.ops() + ops_inst_port_items(
                env_of(*old(self), st@, nt@),
                *v,
                i as int,
            ),
        decreases *v, v@.len() - i,
    {
        if i < v.len() {
            self.inst_port_item(st, nt, &v[i]);
            self.inst_port_items(st, nt, v, i + 1);
        }
        proof {
            assert(self.set.ops() =~= old(self).set.ops() + ops_inst_port_items(
                env_of(*old(self), st@, nt@),
                *v,
                i as int,
            ));
        }
    }

    /// `target op= value ;` inside a procedural block: the target and the
    /// assignment operator each form a cell.
    fn statement(&mut self, st: &SymbolTable, nt: &NamespaceTable, d: &IdentifierStatement)
        requires
            old(self).wf(),
            old(self).all_off(),
            st.wf(),
            nt.wf(),
        ensures
            final(self).wf(),
            final(self).all_off(),
            final(self).inserts == old(self).inserts,
            final(self).emit == old(self).emit,
            final(self).implicit == old(self).implicit,
            final(self).set.ops() == old(self).set.ops() + ops_statement(
                env_of(*old(self), st@, nt@),
                *d,
            ),
        decreases *d, 4int,
    {
        self.set.start_item(KIND_IDENTIFIER);
        self.expr_ident(st, nt, &d.target);
        self.set.finish_item(KIND_IDENTIFIER);
        self.set.start_item(KIND_ASSIGNMENT);
        self.set.token_all(d.operator);
        self.set.finish_item(KIND_ASSIGNMENT);
        self.expression(st, nt, &d.expression);
        self.set.token_all(d.semicolon);
        proof {
            assert(self.set.enables() =~= old(self).set.enables());
            assert(self.set.ops() =~= old(self).set.ops() + ops_statement(
                env_of(*old(self), st@, nt@),
                *d,
            ));
        }
    }

    fn statements(
        &mut self,
        st: &SymbolTable,
        nt: &NamespaceTable,
        v: &Vec<IdentifierStatement>,
        i: usize,
    )
        requires
            old(self).wf(),
            old(self).all_off(),
            st.wf(),
            nt.wf(),
            i <= v@.len(),
        ensures
            final(self).wf(),
            final(self).all_off(),
            final(self).emit == old(self).emit,
            final(self).implicit == old(self).implicit,
            final(self).set.ops() == old(self).set.ops() + ops_statements(
                env_of(*old(self), st@, nt@),
                *v,
                i as int,
            ),
        decreases *v, v@.len() - i,
    {
        if i < v.len() {
            self.statement(st, nt, &v[i]);
            self.statements(st, nt, v, i + 1);
        }
        proof {
            assert(self.set.ops() =~= old(self).set.ops() + ops_statements(
                env_of(*old(self), st@, nt@),
                *v,
                i as int,
            ));
        }
    }

    /// `name : type ;` inside a struct or union body.
    fn struct_item(&mut self, st: &SymbolTable, nt: &NamespaceTable, d: &StructUnionItem)
        requires
            old(self).wf(),
            old(self).all_off(),
            st.wf(),
            nt.wf(),
        ensures
            final(self).wf(),
            final(self).all_off(),
            final(self).inserts == old(self).inserts,
            final(self).emit == old(self).emit,
            final(self).implicit == old(self).implicit,
            final(self).set.ops() == old(self).set.ops() + ops_struct_item(
                env_of(*old(self), st@, nt@),
                *d,
            ),
        decreases *d, 4int,
    {
        self.set.start_item(KIND_IDENTIFIER);
        self.ident(st, nt, d.identifier);
        self.set.finish_item(KIND_IDENTIFIER);
        self.set.token_all(d.colon);
        self.scalar_type(st, nt, &d.ty);
        self.set.token_all(d.semicolon);
        proof {
            assert(self.set.enables() =~= old(self).set.enables());
            assert(self.set.ops() =~= old(self).set.ops() + ops_struct_item(
                env_of(*old(self), st@, nt@),
                *d,
            ));
        }
    }

    fn struct_items(
        &mut self,
        st: &SymbolTable,
        nt: &NamespaceTable,
        v: &Vec<StructUnionItem>,
        i: usize,
    )
        requires
            old(self).wf(),
            old(self).all_off(),
            st.wf(),
            nt.wf(),
            i <= v@.len(),
        ensures
            final(self).wf(),
            final(self).all_off(),
            final(self).emit == old(self).emit,
            final(self).implicit == old(self).implicit,
            final(self).set.ops() == old(self).set.ops() + ops_struct_items(
                env_of(*old(self), st@, nt@),
                *v,
                i as int,
            ),
        decreases *v, v@.len() - i,
    {
        if i < v.len() {
            self.struct_item(st, nt, &v[i]);
            self.struct_items(st, nt, v, i + 1);
        }
        proof {
            assert(self.set.ops() =~= old(self).set.ops() + ops_struct_items(
                env_of(*old(self), st@, nt@),
                *v,
                i as int,
            ));
        }
    }

    /// `name : direction` inside a modport body.
    fn modport_item(&mut self, st: &SymbolTable, nt: &NamespaceTable, d: &ModportItem)
        requires
            old(self).wf(),
            old(self).all_off(),
            st.wf(),
            nt.wf(),
        ensures
            final(self).wf(),
            final(self).all_off(),
            final(self).inserts == old(self).inserts,
            final(self).emit == old(self).emit,
            final(self).implicit == old(self).implicit,
            final(self).set.ops() == old(self).set.ops() + ops_modport_item(
                env_of(*old(self), st@, nt@),
                *d,
            ),
        decreases *d, 4int,
    {
        self.set.start_item(KIND_IDENTIFIER);
        self.ident(st, nt, d.identifier);
        self.set.finish_item(KIND_IDENTIFIER);
        self.set.token_all(d.colon);
        self.direction(st, nt, &d.direction);
        proof {
            assert(self.set.enables() =~= old(self).set.enables());
            assert(self.set.ops() =~= old(self).set.ops() + ops_modport_item(
                env_of(*old(self), st@, nt@),
                *d,
            ));
        }
    }

    fn modport_items(
        &mut self,
        st: &SymbolTable,
        nt: &NamespaceTable,
        v: &Vec<ModportItem>,
        i: usize,
    )
        requires
            old(self).wf(),
            old(self).all_off(),
            st.wf(),
            nt.wf(),
            i <= v@.len(),
        ensures
            final(self).wf(),
            final(self).all_off(),
            final(self).emit == old(self).emit,
            final(self).implicit == old(self).implicit,
            final(self).set.ops() == old(self).set.ops() + ops_modport_items(
                env_of(*old(self), st@, nt@),
                *v,
                i as int,
            ),
        decreases *v, v@.len() - i,
    {
        if i < v.len() {
            self.modport_item(st, nt, &v[i]);
            self.modport_items(st, nt, v, i + 1);
        }
        proof {
            assert(self.set.ops() =~= old(self).set.ops() + ops_modport_items(
                env_of(*old(self), st@, nt@),
                *v,
                i as int,
            ));
        }
    }

    fn members(&mut self, v: &Vec<Token>, i: usize)
        requires
            old(self).wf(),
            i <= v@.len(),
        ensures
            final(self).wf(),
            final(self).set.enables() == old(self).set.enables(),
            final(self).inserts == old(self).inserts,
            final(self).emit == old(self).emit,
            final(self).implicit == old(self).implicit,
            final(self).set.ops() == old(self).set.ops() + ops_members(*v, i as int),
        decreases *v, v@.len() - i,
    {
        if i < v.len() {
            self.set.token_all(v[i]);
            self.members(v, i + 1);
        }
        proof {
            assert(self.set.ops() =~= old(self).set.ops() + ops_members(*v, i as int));
        }
    }

    fn module_item(&mut self, st: &SymbolTable, nt: &NamespaceTable, m: &ModuleItem)
        requires
            old(self).wf(),
            old(self).all_off(),
            st.wf(),
            nt.wf(),
        ensures
            final(self).wf(),
            final(self).all_off(),
            final(self).emit == old(self).emit,
            final(self).implicit == old(self).implicit,
            final(self).set.ops() == old(self).set.ops() + ops_module_item(
                env_of(*old(self), st@, nt@),
                *m,
            ),
        decreases *m, 6int,
    {
        match m {
            ModuleItem::Let(d) => self.let_decl(st, nt, d),
            ModuleItem::Var(d) => self.var_decl(st, nt, d),
            ModuleItem::Const(d) => self.const_decl(st, nt, d),
            ModuleItem::TypeDef(d) => self.typedef_decl(st, nt, d),
            ModuleItem::Assign(d) => self.assign_decl(st, nt, d),
            ModuleItem::StructUnion(d) => {
                self.set.token_all(d.kw);
                self.ident(st, nt, d.identifier);
                self.set.token_all(d.l_brace);
                self.struct_items(st, nt, &d.items, 0);
                self.set.token_all(d.r_brace);
            },
            ModuleItem::Enum(d) => {
                self.set.token_all(d.kw);
                self.ident(st, nt, d.identifier);
                self.set.token_all(d.l_brace);
                self.members(&d.members, 0);
                self.set.token_all(d.r_brace);
            },
            ModuleItem::Modport(d) => {
                self.set.token_all(d.kw);
                self.ident(st, nt, d.identifier);
                self.set.token_all(d.l_brace);
                self.modport_items(st, nt, &d.items, 0);
                self.set.token_all(d.r_brace);
            },
            ModuleItem::Inst(d) => self.inst_decl(st, nt, d),
            ModuleItem::Always(d) => {
                self.set.token_all(d.kw);
                self.set.token_all(d.l_brace);
                self.statements(st, nt, &d.statements, 0);
                self.set.token_all(d.r_brace);
            },
            ModuleItem::Import(d) => {
                self.set.token_all(d.kw);
                self.scoped_id(st, nt, &d.target);
                self.set.token_all(d.semicolon);
            },
        }
        proof {
            assert(self.set.ops() =~= old(self).set.ops() + ops_module_item(
                env_of(*old(self), st@, nt@),
                *m,
            ));
        }
    }

    fn module_items(&mut self, st: &SymbolTable, nt: &NamespaceTable, v: &Vec<ModuleItem>, i: usize)
        requires
            old(self).wf(),
            old(self).all_off(),
            st.wf(),
            nt.wf(),
            i <= v@.len(),
        ensures
            final(self).wf(),
            final(self).all_off(),
            final(self).emit == old(self).emit,
            final(self).implicit == old(self).implicit,
            final(self).set.ops() == old(self).set.ops() + ops_module_items(
                env_of(*old(self), st@, nt@),
                *v,
                i as int,
            ),
        decreases *v, v@.len() - i,
    {
        if i < v.len() {
            self.module_item(st, nt, &v[i]);
            self.module_items(st, nt, v, i + 1);
        }
        proof {
            assert(self.set.ops() =~= old(self).set.ops() + ops_module_items(
                env_of(*old(self), st@, nt@),
                *v,
                i as int,
            ));
        }
    }

    fn param_items(
        &mut self,
        st: &SymbolTable,
        nt: &NamespaceTable,
        v: &Vec<WithParameterItem>,
        i: usize,
    )
        requires
            old(self).wf(),
            old(self).all_off(),
            st.wf(),
            nt.wf(),
            i <= v@.len(),
        ensures
            final(self).wf(),
            final(self).all_off(),
            final(self).inserts == old(self).inserts,
            final(self).emit == old(self).emit,
            final(self).implicit == old(self).implicit,
            final(self).set.ops() == old(self).set.ops() + ops_param_items(
                env_of(*old(self), st@, nt@),
                *v,
                i as int,
            ),
        decreases *v, v@.len() - i,
    {
        if i < v.len() {
            self.with_param_item(st, nt, &v[i]);
            self.param_items(st, nt, v, i + 1);
        }
        proof {
            assert(self.set.ops() =~= old(self).set.ops() + ops_param_items(
                env_of(*old(self), st@, nt@),
                *v,
                i as int,
            ));
        }
    }

    fn port_items(
        &mut self,
        st: &SymbolTable,
        nt: &NamespaceTable,
        v: &Vec<PortDeclarationItem>,
        i: usize,
    )
        requires
            old(self).wf(),
            old(self).all_off(),
            st.wf(),
            nt.wf(),
            i <= v@.len(),
        ensures
            final(self).wf(),
            final(self).all_off(),
            final(self).inserts == old(self).inserts,
            final(self).emit == old(self).emit,
            final(self).implicit == old(self).implicit,
            final(self).set.ops() == old(self).set.ops() + ops_port_items(
                env_of(*old(self), st@, nt@),
                *v,
                i as int,
            ),
        decreases *v, v@.len() - i,
    {
        if i < v.len() {
            self.port_item(st, nt, &v[i]);
            self.port_items(st, nt, v, i + 1);
        }
        proof {
            assert(self.set.ops() =~= old(self).set.ops() + ops_port_items(
                env_of(*old(self), st@, nt@),
                *v,
                i as int,
            ));
        }
    }

    #[verifier::rlimit(60)]
    #[verifier::spinoff_prover]
    fn module_decl(&mut self, st: &SymbolTable, nt: &NamespaceTable, d: &ModuleDeclaration)
        requires
            old(self).wf(),
            old(self).all_off(),
            st.wf(),
            nt.wf(),
        ensures
            final(self).wf(),
            final(self).all_off(),
            final(self).emit == old(self).emit,
            final(self).implicit == old(self).implicit,
            final(self).set.ops() == old(self).set.ops() + ops_module(
                env_of(*old(self), st@, nt@),
                *d,
            ),
        decreases *d, 4int,
    {
        self.set.token_all(d.kw);
        self.ident(st, nt, d.identifier);
        match &d.parameters {
            Option::Some(p) => {
                self.set.token_all(p.hash);
                self.set.token_all(p.l_paren);
                self.param_items(st, nt, &p.items, 0);
                self.set.token_all(p.r_paren);
            },
            Option::None => {},
        }
        match &d.ports {
            Option::Some(p) => {
                self.set.token_all(p.l_paren);
                self.port_items(st, nt, &p.items, 0);
                self.set.token_all(p.r_paren);
            },
            Option::None => {},
        }
        self.set.token_all(d.l_brace);
        self.module_items(st, nt, &d.items, 0);
        self.set.token_all(d.r_brace);
        proof {
            assert(self.set.ops() =~= old(self).set.ops() + ops_module(
                env_of(*old(self), st@, nt@),
                *d,
            ));
        }
    }

    fn interface_decl(&mut self, st: &SymbolTable, nt: &NamespaceTable, d: &InterfaceDeclaration)
        requires
            old(self).wf(),
            old(self).all_off(),
            st.wf(),
            nt.wf(),
        ensures
            final(self).wf(),
            final(self).all_off(),
            final(self).emit == old(self).emit,
            final(self).implicit == old(self).implicit,
            final(self).set.ops() == old(self).set.ops() + ops_interface(
                env_of(*old(self), st@, nt@),
                *d,
            ),
        decreases *d, 4int,
    {
        self.set.token_all(d.kw);
        self.ident(st, nt, d.identifier);
        match &d.parameters {
            Option::Some(p) => {
                self.set.token_all(p.hash);
                self.set.token_all(p.l_paren);
                self.param_items(st, nt, &p.items, 0);
                self.set.token_all(p.r_paren);
            },
            Option::None => {},
        }
        self.set.token_all(d.l_brace);
        self.module_items(st, nt, &d.items, 0);
        self.set.token_all(d.r_brace);
        proof {
            assert(self.set.ops() =~= old(self).set.ops() + ops_interface(
                env_of(*old(self), st@, nt@),
                *d,
            ));
        }
    }

    fn package_decl(&mut self, st: &SymbolTable, nt: &NamespaceTable, d: &PackageDeclaration)
        requires
            old(self).wf(),
            old(self).all_off(),
            st.wf(),
            nt.wf(),
        ensures
            final(self).wf(),
            final(self).all_off(),
            final(self).emit == old(self).emit,
            final(self).implicit == old(self).implicit,
            final(self).set.ops() == old(self).set.ops() + ops_package(
                env_of(*old(self), st@, nt@),
                *d,
            ),
        decreases *d, 4int,
    {
        self.set.token_all(d.kw);
        self.ident(st, nt, d.identifier);
        self.set.token_all(d.l_brace);
        self.module_items(st, nt, &d.items, 0);
        self.set.token_all(d.r_brace);
        proof {
            assert(self.set.ops() =~= old(self).set.ops() + ops_package(
                env_of(*old(self), st@, nt@),
                *d,
            ));
        }
    }

    fn descriptions(&mut self, st: &SymbolTable, nt: &NamespaceTable, v: &Vec<Description>, i: usize)
        requires
            old(self).wf(),
            old(self).all_off(),
            st.wf(),
            nt.wf(),
            i <= v@.len(),
        ensures
            final(self).wf(),
            final(self).all_off(),
            final(self).emit == old(self).emit,
            final(self).implicit == old(self).implicit,
            final(self).set.ops() == old(self).set.ops() + ops_descriptions(
                env_of(*old(self), st@, nt@),
                *v,
                i as int,
            ),
        decreases *v, v@.len() - i,
    {
        if i < v.len() {
            match &v[i] {
                Description::Module(d) => self.module_decl(st, nt, d),
                Description::Interface(d) => self.interface_decl(st, nt, d),
                Description::Package(d) => self.package_decl(st, nt, d),
                Description::Import(d) => {
                    self.set.token_all(d.kw);
                    self.scoped_id(st, nt, &d.target);
                    self.set.token_all(d.semicolon);
                },
            }
            self.descriptions(st, nt, v, i + 1);
        }
        proof {
            assert(self.set.ops() =~= old(self).set.ops() + ops_descriptions(
                env_of(*old(self), st@, nt@),
                *v,
                i as int,
            ));
        }
    }

    /// Walk one source file and close the trailing groups: the cell
    /// operations performed are exactly `ops_veryl` of the input, afterwards
    /// no kind has a buffered cell left, and the directly inserted paddings
    /// are this walk's alone.
    pub fn run(&mut self, st: &SymbolTable, nt: &NamespaceTable, input: &Veryl)
        requires
            old(self).wf(),
            old(self).all_off(),
            st.wf(),
            nt.wf(),
        ensures
            final(self).wf(),
            final(self).all_off(),
            final(self).emit == old(self).emit,
            final(self).implicit == old(self).implicit,
            final(self).set.ops() == old(self).set.ops() + ops_veryl(
                env_of(*old(self), st@, nt@),
                *input,
            ),
            forall|k: int|
                0 <= k < NUM_KINDS ==> (#[trigger] final(self).set@[k]).rest == Seq::<(
                    Location,
                    u32,
                )>::empty() && final(self).set@[k].max_width == 0,
    {
        self.inserts.clear();
        self.descriptions(st, nt, &input.descriptions, 0);
        self.set.finish_group_all();
        proof {
            assert(self.set.ops() =~= old(self).set.ops() + ops_veryl(
                env_of(*old(self), st@, nt@),
                *input,
            ));
        }
    }
}

} // verus!
