use veryl_core::dag::{Context, DagError, TypeDag};
use veryl_core::symbol::{Symbol, SymbolKind, SymbolPathNamespace, SymbolTable};
use veryl_core::token::Token;

fn tok(id: u64, line: u32, column: u32, length: u32, text: usize) -> Token {
    Token::new(id, line, column, length, text)
}

fn path_ns(path: Vec<usize>, namespace: Vec<usize>) -> SymbolPathNamespace {
    SymbolPathNamespace { path, namespace }
}

fn table_with(names: &[usize]) -> SymbolTable {
    let mut st = SymbolTable::new();
    for (i, n) in names.iter().enumerate() {
        st.insert(
            vec![*n],
            Symbol {
                kind: SymbolKind::Struct,
                namespace: vec![],
                token: tok(i as u64 + 1, 1, 1, 1, *n),
            },
        );
    }
    st
}

#[test]
fn insert_node_is_idempotent() {
    let st = table_with(&[11]);
    let mut dag = TypeDag::new();
    let a = dag
        .insert_node(&st, &path_ns(vec![11], vec![]), String::from("A"), tok(1, 1, 1, 1, 11))
        .unwrap();
    let b = dag
        .insert_node(&st, &path_ns(vec![11], vec![]), String::from("A"), tok(1, 1, 1, 1, 11))
        .unwrap();
    assert_eq!(a, b);
    assert_eq!(dag.node_count(), 1);
}

#[test]
fn insert_node_reports_unresolved() {
    let st = table_with(&[11]);
    let mut dag = TypeDag::new();
    let r = dag.insert_node(&st, &path_ns(vec![12], vec![]), String::from("X"), tok(5, 2, 3, 1, 12));
    match r {
        Err(DagError::UnableToResolve { name, token }) => {
            assert_eq!(name, "X");
            assert_eq!(token.id, 5);
        }
        _ => panic!("expected an unresolved name"),
    }
    assert_eq!(dag.node_count(), 0);
}

#[test]
fn cyclic_edge_is_refused() {
    let st = table_with(&[11, 12, 13]);
    let mut dag = TypeDag::new();
    let a = dag
        .insert_node(&st, &path_ns(vec![11], vec![]), String::from("A"), tok(1, 1, 1, 1, 11))
        .unwrap();
    let b = dag
        .insert_node(&st, &path_ns(vec![12], vec![]), String::from("B"), tok(2, 2, 1, 1, 12))
        .unwrap();
    let c = dag
        .insert_node(&st, &path_ns(vec![13], vec![]), String::from("C"), tok(3, 3, 1, 1, 13))
        .unwrap();
    assert!(dag.insert_edge(a, b, Context::Struct).is_ok());
    assert!(dag.insert_edge(b, c, Context::Struct).is_ok());
    // closing the cycle through two hops is refused and changes nothing
    match dag.insert_edge(c, a, Context::Struct) {
        Err(DagError::Cyclic(s, e)) => {
            assert_eq!(s.id, 3);
            assert_eq!(e.id, 1);
        }
        _ => panic!("expected a cycle refusal"),
    }
    assert!(!dag.exist_edge(c, a));
    // a self edge is refused as well
    assert!(dag.insert_edge(a, a, Context::Struct).is_err());
    assert!(dag.exist_edge(a, b));
    assert!(dag.exist_edge(b, c));
}

#[test]
fn ownership_edge_wins() {
    let st = table_with(&[11, 12]);
    let mut dag = TypeDag::new();
    let p = dag
        .insert_node(&st, &path_ns(vec![11], vec![]), String::from("P"), tok(1, 1, 1, 1, 11))
        .unwrap();
    let c = dag
        .insert_node(&st, &path_ns(vec![12], vec![]), String::from("C"), tok(2, 2, 1, 1, 12))
        .unwrap();
    // a reference edge from the child exists; ownership removes it first
    assert!(dag.insert_edge(c, p, Context::Struct).is_ok());
    assert!(dag.exist_edge(c, p));
    dag.remove_edge(c, p);
    assert!(dag.insert_edge(p, c, Context::Struct).is_ok());
    assert!(dag.exist_edge(p, c));
    assert!(!dag.exist_edge(c, p));
}

#[test]
fn remove_edge_keeps_other_edges() {
    let st = table_with(&[11, 12, 13]);
    let mut dag = TypeDag::new();
    let a = dag
        .insert_node(&st, &path_ns(vec![11], vec![]), String::from("A"), tok(1, 1, 1, 1, 11))
        .unwrap();
    let b = dag
        .insert_node(&st, &path_ns(vec![12], vec![]), String::from("B"), tok(2, 2, 1, 1, 12))
        .unwrap();
    let c = dag
        .insert_node(&st, &path_ns(vec![13], vec![]), String::from("C"), tok(3, 3, 1, 1, 13))
        .unwrap();
    assert!(dag.insert_edge(a, b, Context::Module).is_ok());
    assert!(dag.insert_edge(a, c, Context::Module).is_ok());
    dag.remove_edge(a, b);
    assert!(!dag.exist_edge(a, b));
    assert!(dag.exist_edge(a, c));
}
