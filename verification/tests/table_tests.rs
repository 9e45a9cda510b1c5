use std::rc::Rc;
use veryl_core::intern::StrTable;
use veryl_core::symbol::{Symbol, SymbolKind, SymbolTable, Type, TypeKind};
use veryl_core::tables::{MsbTable, NamespaceTable};
use veryl_core::token::Token;
use veryl_core::tree::{Expression, Factor, VariableKind};

fn tok(id: u64, line: u32, column: u32, length: u32, text: usize) -> Token {
    Token::new(id, line, column, length, text)
}

fn num_expr(t: Token) -> Expression {
    Expression { head: Factor::Number(t), tail: Vec::new() }
}

#[test]
fn intern_is_idempotent() {
    let mut it = StrTable::new();
    let a = it.intern(String::from("alpha"));
    let b = it.intern(String::from("beta"));
    let a2 = it.intern(String::from("alpha"));
    assert_eq!(a, a2);
    assert_ne!(a, b);
    assert_eq!(it.get(a).unwrap(), "alpha");
    assert_eq!(it.get(b).unwrap(), "beta");
    assert!(it.get(99).is_none());
    assert_eq!(it.len(), 2);
}

#[test]
fn interner_placeholder_for_unknown_id() {
    let it = StrTable::new();
    assert_eq!(it.get_or_unknown(7), "<unknown StrId>");
}

#[test]
fn namespace_table_overwrites() {
    let mut nt = NamespaceTable::new();
    nt.insert(1, vec![10, 20]);
    nt.insert(2, vec![10]);
    nt.insert(1, vec![30]);
    assert_eq!(nt.get(1).unwrap().as_slice(), &[30]);
    assert_eq!(nt.get(2).unwrap().as_slice(), &[10]);
    assert!(nt.get(3).is_none());
}

#[test]
fn msb_table_insert_and_get() {
    let mut mt = MsbTable::new();
    let e1 = Rc::new(num_expr(tok(9, 1, 1, 1, 5)));
    let e2 = Rc::new(num_expr(tok(10, 1, 3, 1, 6)));
    mt.insert(4, e1);
    mt.insert(4, e2.clone());
    match &mt.get(4).unwrap().head {
        Factor::Number(t) => assert_eq!(t.text, 6),
        _ => panic!("expected a number"),
    }
    assert!(mt.get(5).is_none());
    let _ = e2;
}

#[test]
fn symbol_table_scope_chain_resolution() {
    let mut st = SymbolTable::new();
    // the same path declared at file scope and inside scope 100
    let ty_outer = Type { kind: TypeKind::Variable(VariableKind::Logic), array: vec![], width: vec![] };
    let ty_inner = Type { kind: TypeKind::Variable(VariableKind::Bit), array: vec![], width: vec![] };
    assert!(st.insert(
        vec![7],
        Symbol {
            kind: SymbolKind::Variable { ty: ty_outer, prefix: None, suffix: None },
            namespace: vec![],
            token: tok(1, 1, 1, 1, 7),
        },
    ));
    assert!(st.insert(
        vec![7],
        Symbol {
            kind: SymbolKind::Variable { ty: ty_inner, prefix: None, suffix: None },
            namespace: vec![100],
            token: tok(2, 2, 1, 1, 7),
        },
    ));
    // innermost scope wins
    let inner = st.resolve(&vec![7], &vec![100]).unwrap();
    assert_eq!(inner.token.id, 2);
    // outer lookup sees the file-scope symbol
    let outer = st.resolve(&vec![7], &vec![]).unwrap();
    assert_eq!(outer.token.id, 1);
    // a deeper unrelated scope falls back outward
    let deep = st.resolve(&vec![7], &vec![200, 300]).unwrap();
    assert_eq!(deep.token.id, 1);
    assert!(st.resolve(&vec![8], &vec![100]).is_none());
}

#[test]
fn symbol_table_keeps_first_record() {
    let mut st = SymbolTable::new();
    let sym = |id: u64| Symbol {
        kind: SymbolKind::Module,
        namespace: vec![],
        token: tok(id, 1, 1, 1, 3),
    };
    assert!(st.insert(vec![3], sym(1)));
    assert!(!st.insert(vec![3], sym(2)));
    assert_eq!(st.resolve(&vec![3], &vec![]).unwrap().token.id, 1);
    assert_eq!(st.len(), 1);
}
