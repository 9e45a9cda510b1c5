use std::rc::Rc;
use veryl_core::check_msb_lsb::check_msb_lsb_file;
use veryl_core::error::AnalyzerError;
use veryl_core::symbol::{Symbol, SymbolKind, SymbolTable, Type, TypeKind};
use veryl_core::tables::{MsbTable, NamespaceTable};
use veryl_core::token::Token;
use veryl_core::tree::{
    AssignDeclaration, Description, Expression, ExpressionIdentifier, Factor, ModuleDeclaration,
    ModuleItem, ScopedIdentifier, Select, VariableKind, Veryl,
};

fn t(id: u64, line: u32, column: u32, length: u32, text: usize) -> Token {
    Token::new(id, line, column, length, text)
}

fn num(token: Token) -> Expression {
    Expression { head: Factor::Number(token), tail: Vec::new() }
}

fn bare_ident(token: Token) -> ExpressionIdentifier {
    ExpressionIdentifier {
        head: ScopedIdentifier { first: token, rest: Vec::new() },
        head_selects: Vec::new(),
        rest: Vec::new(),
    }
}

fn select_of(expr: Expression, lb: u64, rb: u64) -> Select {
    Select {
        l_bracket: t(lb, 1, 1, 1, 90),
        expression: expr,
        select_opt: None,
        r_bracket: t(rb, 1, 1, 1, 91),
    }
}

/// One module holding a single assign declaration with the given value.
fn module_with_assign(value: Expression) -> Veryl {
    let target = bare_ident(t(200, 1, 1, 1, 60));
    Veryl {
        descriptions: vec![Description::Module(ModuleDeclaration {
            kw: t(100, 1, 1, 6, 50),
            identifier: t(101, 1, 8, 1, 51),
            parameters: None,
            ports: None,
            l_brace: t(102, 1, 10, 1, 52),
            items: vec![ModuleItem::Assign(AssignDeclaration {
                kw: t(103, 2, 1, 6, 53),
                target,
                equ: t(104, 2, 12, 1, 54),
                expression: value,
                semicolon: t(105, 2, 30, 1, 55),
            })],
            r_brace: t(106, 3, 1, 1, 56),
        })],
    }
}

/// Namespace entries for every token id the walk opens a scope or name with.
fn namespaces_for(ids: &[u64]) -> NamespaceTable {
    let mut nt = NamespaceTable::new();
    for id in ids {
        nt.insert(*id, vec![]);
    }
    nt
}

fn logic_with_dims(array: Vec<Rc<Expression>>, width: Vec<Rc<Expression>>) -> Type {
    Type { kind: TypeKind::Variable(VariableKind::Logic), array, width }
}

fn table_with_a(a_text: usize, ty: Type) -> SymbolTable {
    let mut st = SymbolTable::new();
    st.insert(
        vec![a_text],
        Symbol {
            kind: SymbolKind::Variable { ty, prefix: None, suffix: None },
            namespace: vec![],
            token: t(1, 1, 1, 1, a_text),
        },
    );
    st
}

fn expr_text(e: &Expression) -> usize {
    match &e.head {
        Factor::Number(tk) => tk.text,
        _ => panic!("expected a number expression"),
    }
}

#[test]
fn msb_resolves_packed_width() {
    // a[msb] where a: logic<8> records the width expression of a
    let width8 = Rc::new(num(t(2, 1, 1, 1, 8)));
    let st = table_with_a(40, logic_with_dims(vec![], vec![width8]));
    let msb_tok = t(300, 2, 20, 3, 70);
    let mut ident = bare_ident(t(301, 2, 14, 1, 40));
    ident.head_selects.push(select_of(
        Expression { head: Factor::MsbKeyword(msb_tok), tail: Vec::new() },
        302,
        303,
    ));
    let tree = module_with_assign(Expression { head: Factor::ExprId(Box::new(ident)), tail: Vec::new() });
    let nt = namespaces_for(&[100, 101, 200, 301]);
    let mut msb = MsbTable::new();
    let handler = check_msb_lsb_file(&tree, &st, &nt, &mut msb);
    assert!(handler.errors.is_empty());
    let stored = msb.get(300).expect("the msb entry must exist");
    assert_eq!(expr_text(stored), 8);
}

#[test]
fn msb_walks_array_then_width() {
    // a[msb][msb] where a: logic<8>[4]: the first msb takes the array
    // dimension, the second the packed width
    let dim4 = Rc::new(num(t(2, 1, 1, 1, 4)));
    let width8 = Rc::new(num(t(3, 1, 1, 1, 8)));
    let st = table_with_a(40, logic_with_dims(vec![dim4], vec![width8]));
    let msb1 = t(310, 2, 20, 3, 70);
    let msb2 = t(311, 2, 25, 3, 70);
    let mut ident = bare_ident(t(301, 2, 14, 1, 40));
    ident.head_selects.push(select_of(
        Expression { head: Factor::MsbKeyword(msb1), tail: Vec::new() },
        302,
        303,
    ));
    ident.head_selects.push(select_of(
        Expression { head: Factor::MsbKeyword(msb2), tail: Vec::new() },
        304,
        305,
    ));
    let tree = module_with_assign(Expression { head: Factor::ExprId(Box::new(ident)), tail: Vec::new() });
    let nt = namespaces_for(&[100, 101, 200, 301]);
    let mut msb = MsbTable::new();
    let handler = check_msb_lsb_file(&tree, &st, &nt, &mut msb);
    assert!(handler.errors.is_empty());
    assert_eq!(expr_text(msb.get(310).unwrap()), 4);
    assert_eq!(expr_text(msb.get(311).unwrap()), 8);
}

#[test]
fn msb_outside_select_is_invalid() {
    let st = table_with_a(40, logic_with_dims(vec![], vec![]));
    let msb_tok = t(320, 2, 14, 3, 70);
    let tree = module_with_assign(Expression { head: Factor::MsbKeyword(msb_tok), tail: Vec::new() });
    let nt = namespaces_for(&[100, 101, 200]);
    let mut msb = MsbTable::new();
    let handler = check_msb_lsb_file(&tree, &st, &nt, &mut msb);
    assert_eq!(handler.errors.len(), 1);
    match &handler.errors[0] {
        AnalyzerError::InvalidMsb { token } => assert_eq!(token.id, 320),
        _ => panic!("expected invalid_msb"),
    }
    assert!(msb.get(320).is_none());
}

#[test]
fn lsb_outside_select_is_invalid() {
    let st = table_with_a(40, logic_with_dims(vec![], vec![]));
    let lsb_tok = t(330, 2, 14, 3, 71);
    let tree = module_with_assign(Expression { head: Factor::LsbKeyword(lsb_tok), tail: Vec::new() });
    let nt = namespaces_for(&[100, 101, 200]);
    let mut msb = MsbTable::new();
    let handler = check_msb_lsb_file(&tree, &st, &nt, &mut msb);
    assert_eq!(handler.errors.len(), 1);
    assert!(matches!(&handler.errors[0], AnalyzerError::InvalidLsb { token } if token.id == 330));
}

#[test]
fn lsb_inside_select_passes() {
    let width8 = Rc::new(num(t(2, 1, 1, 1, 8)));
    let st = table_with_a(40, logic_with_dims(vec![], vec![width8]));
    let lsb_tok = t(331, 2, 20, 3, 71);
    let mut ident = bare_ident(t(301, 2, 14, 1, 40));
    ident.head_selects.push(select_of(
        Expression { head: Factor::LsbKeyword(lsb_tok), tail: Vec::new() },
        302,
        303,
    ));
    let tree = module_with_assign(Expression { head: Factor::ExprId(Box::new(ident)), tail: Vec::new() });
    let nt = namespaces_for(&[100, 101, 200, 301]);
    let mut msb = MsbTable::new();
    let handler = check_msb_lsb_file(&tree, &st, &nt, &mut msb);
    assert!(handler.errors.is_empty());
}

#[test]
fn msb_with_unknown_name_is_reported() {
    // b is not declared, so the msb cannot be matched to a dimension
    let st = table_with_a(40, logic_with_dims(vec![], vec![]));
    let msb_tok = t(340, 2, 20, 3, 70);
    let mut ident = bare_ident(t(301, 2, 14, 1, 41));
    ident.head_selects.push(select_of(
        Expression { head: Factor::MsbKeyword(msb_tok), tail: Vec::new() },
        302,
        303,
    ));
    let tree = module_with_assign(Expression { head: Factor::ExprId(Box::new(ident)), tail: Vec::new() });
    let nt = namespaces_for(&[100, 101, 200, 301]);
    let mut msb = MsbTable::new();
    let handler = check_msb_lsb_file(&tree, &st, &nt, &mut msb);
    assert_eq!(handler.errors.len(), 1);
    assert!(matches!(&handler.errors[0], AnalyzerError::UnknownMsb { token } if token.id == 340));
    assert!(msb.get(340).is_none());
}

#[test]
fn msb_beyond_declared_dimensions_is_reported() {
    // a: logic<8> has one dimension; the second select has nothing to take
    let width8 = Rc::new(num(t(2, 1, 1, 1, 8)));
    let st = table_with_a(40, logic_with_dims(vec![], vec![width8]));
    let msb1 = t(350, 2, 20, 3, 70);
    let msb2 = t(351, 2, 25, 3, 70);
    let mut ident = bare_ident(t(301, 2, 14, 1, 40));
    ident.head_selects.push(select_of(
        Expression { head: Factor::MsbKeyword(msb1), tail: Vec::new() },
        302,
        303,
    ));
    ident.head_selects.push(select_of(
        Expression { head: Factor::MsbKeyword(msb2), tail: Vec::new() },
        304,
        305,
    ));
    let tree = module_with_assign(Expression { head: Factor::ExprId(Box::new(ident)), tail: Vec::new() });
    let nt = namespaces_for(&[100, 101, 200, 301]);
    let mut msb = MsbTable::new();
    let handler = check_msb_lsb_file(&tree, &st, &nt, &mut msb);
    assert!(msb.get(350).is_some());
    assert!(msb.get(351).is_none());
    assert_eq!(handler.errors.len(), 1);
    assert!(matches!(&handler.errors[0], AnalyzerError::UnknownMsb { token } if token.id == 351));
}
