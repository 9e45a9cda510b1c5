//! Shape of the parse tree as the core consumes it: every terminal is a
//! `Token`, every production is a struct or enum named after the grammar rule.
//! The parser that produces this tree is an external collaborator; the walks
//! over it are this library's own.

use vstd::prelude::*;
use crate::token::Token;

verus! {

/// A dotted or `::`-joined name: the first identifier and the following
/// `(separator, identifier)` pairs.
pub struct ScopedIdentifier {
    pub first: Token,
    pub rest: Vec<ScopedIdentifierPart>,
}

pub struct ScopedIdentifierPart {
    pub colon_colon: Token,
    pub identifier: Token,
}

/// A bracketed select: `[ expression ]` or `[ expression op expression ]`.
pub struct Select {
    pub l_bracket: Token,
    pub expression: Expression,
    pub select_opt: Option<SelectRange>,
    pub r_bracket: Token,
}

pub struct SelectRange {
    pub operator: Token,
    pub expression: Expression,
}

/// One dotted continuation of an expression identifier: `. identifier` with
/// its selects.
pub struct IdSegment {
    pub dot: Token,
    pub identifier: Token,
    pub selects: Vec<Select>,
}

/// A name in expression position: a scoped head, its selects, and dotted
/// continuations.
pub struct ExpressionIdentifier {
    pub head: ScopedIdentifier,
    pub head_selects: Vec<Select>,
    pub rest: Vec<IdSegment>,
}

pub enum Factor {
    Number(Token),
    ExprId(Box<ExpressionIdentifier>),
    MsbKeyword(Token),
    LsbKeyword(Token),
    Paren(Token, Box<Expression>, Token),
    CaseExpr(Box<CaseExpression>),
    SwitchExpr(Box<SwitchExpression>),
}

/// A chain of factors joined by binary operator tokens, in source order.
pub struct Expression {
    pub head: Factor,
    pub tail: Vec<ExprOperand>,
}

pub struct ExprOperand {
    pub operator: Token,
    pub operand: Factor,
}

/// `case expression { condition : expression , ... default : expression }`.
pub struct CaseExpression {
    pub case: Token,
    pub subject: Expression,
    pub l_brace: Token,
    pub arms: Vec<CaseArm>,
    pub defaul: Token,
    pub default_colon: Token,
    pub default_expression: Expression,
    pub r_brace: Token,
}

pub struct CaseArm {
    pub condition: Expression,
    pub condition_rest: Vec<CommaExpression>,
    pub colon: Token,
    pub expression: Expression,
    pub comma: Token,
}

pub struct CommaExpression {
    pub comma: Token,
    pub expression: Expression,
}

/// `switch { condition : expression , ... default : expression }`.
pub struct SwitchExpression {
    pub switch: Token,
    pub l_brace: Token,
    pub arms: Vec<CaseArm>,
    pub defaul: Token,
    pub default_colon: Token,
    pub default_expression: Expression,
    pub r_brace: Token,
}

/// The built-in variable types: the ones that take a width.
#[derive(Clone, Copy, PartialEq, Eq, Structural)]
pub enum VariableKind {
    Logic,
    Bit,
    Clock,
    ClockPosedge,
    ClockNegedge,
    Reset,
    ResetAsyncHigh,
    ResetAsyncLow,
    ResetSyncHigh,
    ResetSyncLow,
}

/// The built-in fixed types: the ones whose width is implied.
#[derive(Clone, Copy, PartialEq, Eq, Structural)]
pub enum FixedKind {
    U32,
    U64,
    I32,
    I64,
    F32,
    F64,
    Str,
}

/// `< expression , ... >`: packed bit-width dimensions.
pub struct Width {
    pub l_angle: Token,
    pub expression: Expression,
    pub rest: Vec<CommaExpression>,
    pub r_angle: Token,
}

/// `[ expression , ... ]`: unpacked array dimensions.
pub struct ArrayDims {
    pub l_bracket: Token,
    pub expression: Expression,
    pub rest: Vec<CommaExpression>,
    pub r_bracket: Token,
}

pub enum ScalarKind {
    UserDefined { identifier: ScopedIdentifier, width: Option<Width> },
    Variable { token: Token, kind: VariableKind, width: Option<Width> },
    Fixed { token: Token, kind: FixedKind },
}

pub struct ScalarType {
    pub modifiers: Vec<Token>,
    pub kind: ScalarKind,
}

pub struct ArrayType {
    pub scalar: ScalarType,
    pub array: Option<ArrayDims>,
}

/// The type slot of a `const` or parameter: a concrete type or the `type`
/// keyword.
pub enum ConstTypeGroup {
    Arr(ArrayType),
    TypeKeyword(Token),
}

pub struct LetDeclaration {
    pub kw: Token,
    pub identifier: Token,
    pub colon: Token,
    pub clock_domain: Option<Token>,
    pub ty: ArrayType,
    pub equ: Token,
    pub expression: Expression,
    pub semicolon: Token,
}

pub struct VarDeclaration {
    pub kw: Token,
    pub identifier: Token,
    pub colon: Token,
    pub clock_domain: Option<Token>,
    pub ty: ArrayType,
    pub semicolon: Token,
}

pub struct ConstDeclaration {
    pub kw: Token,
    pub identifier: Token,
    pub colon: Token,
    pub ty: ConstTypeGroup,
    pub equ: Token,
    pub expression: Expression,
    pub semicolon: Token,
}

pub struct TypeDefDeclaration {
    pub kw: Token,
    pub identifier: Token,
    pub equ: Token,
    pub ty: ArrayType,
    pub semicolon: Token,
}

pub struct AssignDeclaration {
    pub kw: Token,
    pub target: ExpressionIdentifier,
    pub equ: Token,
    pub expression: Expression,
    pub semicolon: Token,
}

pub struct StructUnionDeclaration {
    pub kw: Token,
    pub is_union: bool,
    pub identifier: Token,
    pub l_brace: Token,
    pub items: Vec<StructUnionItem>,
    pub r_brace: Token,
}

pub struct StructUnionItem {
    pub identifier: Token,
    pub colon: Token,
    pub ty: ScalarType,
    pub semicolon: Token,
}

pub struct EnumDeclaration {
    pub kw: Token,
    pub identifier: Token,
    pub l_brace: Token,
    pub members: Vec<Token>,
    pub r_brace: Token,
}

pub enum Direction {
    Input(Token),
    Output(Token),
    Inout(Token),
    RefPort(Token),
    ModportPort(Token),
    ImportPort(Token),
}

pub struct ModportDeclaration {
    pub kw: Token,
    pub identifier: Token,
    pub l_brace: Token,
    pub items: Vec<ModportItem>,
    pub r_brace: Token,
}

pub struct ModportItem {
    pub identifier: Token,
    pub colon: Token,
    pub direction: Direction,
}

pub struct WithParameterItem {
    pub kw: Token,
    pub is_param: bool,
    pub identifier: Token,
    pub colon: Token,
    pub ty: ConstTypeGroup,
    pub equ: Token,
    pub expression: Expression,
}

pub enum PortTypeGroup {
    Concrete { direction: Direction, clock_domain: Option<Token>, ty: ArrayType },
    Abstract { clock_domain: Option<Token>, interface: Token, array: Option<ArrayDims> },
}

pub struct PortDeclarationItem {
    pub identifier: Token,
    pub colon: Token,
    pub port: PortTypeGroup,
}

pub struct InstParameterItem {
    pub identifier: Token,
    pub value: Option<ColonExpression>,
}

pub struct InstPortItem {
    pub identifier: Token,
    pub value: Option<ColonExpression>,
}

pub struct ColonExpression {
    pub colon: Token,
    pub expression: Expression,
}

pub struct InstDeclaration {
    pub kw: Token,
    pub identifier: Token,
    pub colon: Token,
    pub target: ScopedIdentifier,
    pub array: Option<ArrayDims>,
    pub parameters: Option<InstParameterList>,
    pub ports: Option<InstPortList>,
    pub semicolon: Token,
}

pub struct InstParameterList {
    pub hash: Token,
    pub l_paren: Token,
    pub items: Vec<InstParameterItem>,
    pub r_paren: Token,
}

pub struct InstPortList {
    pub l_paren: Token,
    pub items: Vec<InstPortItem>,
    pub r_paren: Token,
}

/// An assignment statement inside a procedural block: target, `=` or a
/// compound assignment operator, value.
pub struct IdentifierStatement {
    pub target: ExpressionIdentifier,
    pub operator: Token,
    pub expression: Expression,
    pub semicolon: Token,
}

pub struct AlwaysBlock {
    pub kw: Token,
    pub l_brace: Token,
    pub statements: Vec<IdentifierStatement>,
    pub r_brace: Token,
}

pub struct ImportDeclaration {
    pub kw: Token,
    pub target: ScopedIdentifier,
    pub semicolon: Token,
}

pub enum ModuleItem {
    Let(LetDeclaration),
    Var(VarDeclaration),
    Const(ConstDeclaration),
    TypeDef(TypeDefDeclaration),
    Assign(AssignDeclaration),
    StructUnion(StructUnionDeclaration),
    Enum(EnumDeclaration),
    Modport(ModportDeclaration),
    Inst(InstDeclaration),
    Always(AlwaysBlock),
    Import(ImportDeclaration),
}

pub struct ModuleDeclaration {
    pub kw: Token,
    pub identifier: Token,
    pub parameters: Option<WithParameterList>,
    pub ports: Option<PortDeclarationList>,
    pub l_brace: Token,
    pub items: Vec<ModuleItem>,
    pub r_brace: Token,
}

pub struct WithParameterList {
    pub hash: Token,
    pub l_paren: Token,
    pub items: Vec<WithParameterItem>,
    pub r_paren: Token,
}

pub struct PortDeclarationList {
    pub l_paren: Token,
    pub items: Vec<PortDeclarationItem>,
    pub r_paren: Token,
}

pub struct InterfaceDeclaration {
    pub kw: Token,
    pub identifier: Token,
    pub parameters: Option<WithParameterList>,
    pub l_brace: Token,
    pub items: Vec<ModuleItem>,
    pub r_brace: Token,
}

pub struct PackageDeclaration {
    pub kw: Token,
    pub identifier: Token,
    pub l_brace: Token,
    pub items: Vec<ModuleItem>,
    pub r_brace: Token,
}

pub enum Description {
    Module(ModuleDeclaration),
    Interface(InterfaceDeclaration),
    Package(PackageDeclaration),
    Import(ImportDeclaration),
}

/// The root of one source file.
pub struct Veryl {
    pub descriptions: Vec<Description>,
}

impl ScopedIdentifier {
    /// The interned spellings of the identifiers, in order.
    pub open spec fn spec_texts(&self) -> Seq<usize> {
        Seq::new(self.rest@.len() + 1, |i: int|
            if i == 0 { self.first.text } else { self.rest@[i - 1].identifier.text })
    }

    pub fn texts(&self) -> (r: Vec<usize>)
        ensures
            r@ == self.spec_texts(),
    {
        let mut r: Vec<usize> = Vec::new();
        r.push(self.first.text);
        let mut i: usize = 0;
        while i < self.rest.len()
            invariant
                i <= self.rest@.len(),
                r@.len() == i + 1,
                r@[0] == self.first.text,
                forall|j: int| 1 <= j < r@.len() ==> r@[j] == self.rest@[j - 1].identifier.text,
            decreases self.rest@.len() - i,
        {
            r.push(self.rest[i].identifier.text);
            i += 1;
        }
        assert(r@ =~= self.spec_texts());
        r
    }
}

} // verus!
