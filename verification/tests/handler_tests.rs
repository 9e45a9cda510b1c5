use std::rc::Rc;
use veryl_core::check_msb_lsb::check_msb_lsb_file;
use veryl_core::create_type_dag::create_type_dag_file;
use veryl_core::dag::TypeDag;
use veryl_core::error::AnalyzerError;
use veryl_core::intern::StrTable;
use veryl_core::symbol::{Symbol, SymbolKind, SymbolTable, Type, TypeKind};
use veryl_core::tables::{MsbTable, NamespaceTable};
use veryl_core::token::Token;
use veryl_core::tree::{
    Description, Expression, ExpressionIdentifier, Factor, ModuleItem, PackageDeclaration,
    ScalarKind, ScalarType, ScopedIdentifier, Select, StructUnionDeclaration, StructUnionItem,
    VariableKind, Veryl,
};

fn tk(id: u64, line: u32, column: u32, length: u32, text: usize) -> Token {
    Token::new(id, line, column, length, text)
}

fn user_type_item(ident: Token, colon_id: u64, target: Token, semi_id: u64) -> StructUnionItem {
    StructUnionItem {
        identifier: ident,
        colon: tk(colon_id, ident.line, ident.column + 2, 1, 90),
        ty: ScalarType {
            modifiers: Vec::new(),
            kind: ScalarKind::UserDefined {
                identifier: ScopedIdentifier { first: target, rest: Vec::new() },
                width: None,
            },
        },
        semicolon: tk(semi_id, ident.line, ident.column + 8, 1, 91),
    }
}

/// Two struct types referencing each other inside one package.
fn mutually_referential_package(
    p_text: usize,
    a_text: usize,
    b_text: usize,
) -> (Veryl, Token, Token) {
    let a_decl_tok = tk(10, 2, 8, 1, a_text);
    let b_ref_tok = tk(12, 3, 8, 1, b_text);
    let b_decl_tok = tk(20, 5, 8, 1, b_text);
    let a_ref_tok = tk(22, 6, 8, 1, a_text);
    let struct_a = StructUnionDeclaration {
        kw: tk(9, 2, 1, 6, 80),
        is_union: false,
        identifier: a_decl_tok,
        l_brace: tk(11, 2, 10, 1, 81),
        items: vec![user_type_item(tk(13, 3, 3, 1, 70), 14, b_ref_tok, 15)],
        r_brace: tk(16, 4, 1, 1, 82),
    };
    let struct_b = StructUnionDeclaration {
        kw: tk(19, 5, 1, 6, 80),
        is_union: false,
        identifier: b_decl_tok,
        l_brace: tk(21, 5, 10, 1, 81),
        items: vec![user_type_item(tk(23, 6, 3, 1, 71), 24, a_ref_tok, 25)],
        r_brace: tk(26, 7, 1, 1, 82),
    };
    let tree = Veryl {
        descriptions: vec![Description::Package(PackageDeclaration {
            kw: tk(1, 1, 1, 7, 83),
            identifier: tk(2, 1, 9, 1, p_text),
            l_brace: tk(3, 1, 11, 1, 84),
            items: vec![ModuleItem::StructUnion(struct_a), ModuleItem::StructUnion(struct_b)],
            r_brace: tk(30, 8, 1, 1, 85),
        })],
    };
    (tree, b_ref_tok, a_ref_tok)
}

#[test]
fn cyclic_type_dependency_is_diagnosed() {
    let mut it = StrTable::new();
    let p_text = it.intern(String::from("P"));
    let a_text = it.intern(String::from("A"));
    let b_text = it.intern(String::from("B"));
    let (tree, b_ref_tok, _a_ref_tok) = mutually_referential_package(p_text, a_text, b_text);

    let mut st = SymbolTable::new();
    st.insert(
        vec![p_text],
        Symbol { kind: SymbolKind::Package, namespace: vec![], token: tk(2, 1, 9, 1, p_text) },
    );
    st.insert(
        vec![a_text],
        Symbol { kind: SymbolKind::Struct, namespace: vec![p_text], token: tk(10, 2, 8, 1, a_text) },
    );
    st.insert(
        vec![b_text],
        Symbol { kind: SymbolKind::Struct, namespace: vec![p_text], token: tk(20, 5, 8, 1, b_text) },
    );

    let mut nt = NamespaceTable::new();
    nt.insert(2, vec![]);
    // declaration identifiers and type references live inside the package
    for id in [10u64, 12, 20, 22] {
        nt.insert(id, vec![p_text]);
    }

    let mut dag = TypeDag::new();
    let handler = create_type_dag_file(&tree, &st, &nt, &it, &mut dag);
    let cyclic: Vec<&AnalyzerError> = handler
        .errors
        .iter()
        .filter(|e| matches!(e, AnalyzerError::CyclicTypeDependency { .. }))
        .collect();
    assert_eq!(cyclic.len(), 1);
    match cyclic[0] {
        AnalyzerError::CyclicTypeDependency { start, end, token } => {
            assert_eq!(start, "A");
            assert_eq!(end, "B");
            // reported at the token that first named B
            assert_eq!(token.id, b_ref_tok.id);
        }
        _ => unreachable!(),
    }
}

#[test]
fn reference_inside_expression_creates_no_edge() {
    // an expression identifier suppresses the scoped-identifier rule, so a
    // use of B in expression position adds no dependency edge
    let mut it = StrTable::new();
    let p_text = it.intern(String::from("P"));
    let b_text = it.intern(String::from("B"));
    let c_text = it.intern(String::from("C"));

    let mut st = SymbolTable::new();
    st.insert(
        vec![p_text],
        Symbol { kind: SymbolKind::Package, namespace: vec![], token: tk(2, 1, 9, 1, p_text) },
    );
    st.insert(
        vec![b_text],
        Symbol { kind: SymbolKind::Struct, namespace: vec![p_text], token: tk(20, 5, 8, 1, b_text) },
    );
    st.insert(
        vec![c_text],
        Symbol { kind: SymbolKind::Struct, namespace: vec![p_text], token: tk(40, 9, 8, 1, c_text) },
    );

    // package P { const K: logic = B[0]; } - B occurs only in the expression
    let b_ref = tk(32, 2, 20, 1, b_text);
    let value = Expression {
        head: Factor::ExprId(Box::new(ExpressionIdentifier {
            head: ScopedIdentifier { first: b_ref, rest: Vec::new() },
            head_selects: vec![Select {
                l_bracket: tk(33, 2, 21, 1, 92),
                expression: Expression { head: Factor::Number(tk(34, 2, 22, 1, 93)), tail: vec![] },
                select_opt: None,
                r_bracket: tk(35, 2, 23, 1, 94),
            }],
            rest: Vec::new(),
        })),
        tail: Vec::new(),
    };
    let tree = Veryl {
        descriptions: vec![Description::Package(PackageDeclaration {
            kw: tk(1, 1, 1, 7, 83),
            identifier: tk(2, 1, 9, 1, p_text),
            l_brace: tk(3, 1, 11, 1, 84),
            items: vec![ModuleItem::Const(veryl_core::tree::ConstDeclaration {
                kw: tk(28, 2, 1, 5, 86),
                identifier: tk(29, 2, 7, 1, c_text),
                colon: tk(30, 2, 8, 1, 87),
                ty: veryl_core::tree::ConstTypeGroup::Arr(veryl_core::tree::ArrayType {
                    scalar: ScalarType {
                        modifiers: Vec::new(),
                        kind: ScalarKind::Variable {
                            token: tk(31, 2, 10, 5, 88),
                            kind: VariableKind::Logic,
                            width: None,
                        },
                    },
                    array: None,
                }),
                equ: tk(36, 2, 16, 1, 89),
                expression: value,
                semicolon: tk(37, 2, 24, 1, 95),
            })],
            r_brace: tk(38, 3, 1, 1, 85),
        })],
    };
    let mut nt = NamespaceTable::new();
    nt.insert(2, vec![]);
    for id in [29u64, 32] {
        nt.insert(id, vec![p_text]);
    }
    let mut dag = TypeDag::new();
    let handler = create_type_dag_file(&tree, &st, &nt, &it, &mut dag);
    assert!(handler.errors.is_empty());
    // nodes: P and the const K; B got none since its only use is suppressed
    assert_eq!(dag.node_count(), 2);
}

#[test]
fn msb_traces_type_aliases() {
    // a: MyT where type MyT = logic<8>: the msb resolves through the alias
    let mut it = StrTable::new();
    let a_text = it.intern(String::from("a"));
    let myt_text = it.intern(String::from("MyT"));
    let width8 = Rc::new(Expression { head: Factor::Number(tk(2, 1, 1, 1, 8)), tail: vec![] });
    let mut st = SymbolTable::new();
    st.insert(
        vec![myt_text],
        Symbol {
            kind: SymbolKind::TypeDef {
                ty: Type {
                    kind: TypeKind::Variable(VariableKind::Logic),
                    array: vec![],
                    width: vec![width8],
                },
            },
            namespace: vec![],
            token: tk(3, 1, 1, 3, myt_text),
        },
    );
    st.insert(
        vec![a_text],
        Symbol {
            kind: SymbolKind::Variable {
                ty: Type { kind: TypeKind::UserDefined(vec![myt_text]), array: vec![], width: vec![] },
                prefix: None,
                suffix: None,
            },
            namespace: vec![],
            token: tk(4, 2, 1, 1, a_text),
        },
    );
    let msb_tok = tk(360, 3, 20, 3, 70);
    let ident = ExpressionIdentifier {
        head: ScopedIdentifier { first: tk(361, 3, 14, 1, a_text), rest: Vec::new() },
        head_selects: vec![Select {
            l_bracket: tk(362, 3, 15, 1, 90),
            expression: Expression { head: Factor::MsbKeyword(msb_tok), tail: vec![] },
            select_opt: None,
            r_bracket: tk(363, 3, 19, 1, 91),
        }],
        rest: Vec::new(),
    };
    let target = ExpressionIdentifier {
        head: ScopedIdentifier { first: tk(200, 3, 1, 1, 60), rest: Vec::new() },
        head_selects: Vec::new(),
        rest: Vec::new(),
    };
    let tree = Veryl {
        descriptions: vec![Description::Module(veryl_core::tree::ModuleDeclaration {
            kw: tk(100, 1, 1, 6, 50),
            identifier: tk(101, 1, 8, 1, 51),
            parameters: None,
            ports: None,
            l_brace: tk(102, 1, 10, 1, 52),
            items: vec![ModuleItem::Assign(veryl_core::tree::AssignDeclaration {
                kw: tk(103, 3, 1, 6, 53),
                target,
                equ: tk(104, 3, 12, 1, 54),
                expression: Expression { head: Factor::ExprId(Box::new(ident)), tail: vec![] },
                semicolon: tk(105, 3, 30, 1, 55),
            })],
            r_brace: tk(106, 4, 1, 1, 56),
        })],
    };
    let mut nt = NamespaceTable::new();
    for id in [100u64, 101, 200, 361] {
        nt.insert(id, vec![]);
    }
    let mut msb = MsbTable::new();
    let handler = check_msb_lsb_file(&tree, &st, &nt, &mut msb);
    assert!(handler.errors.is_empty());
    match &msb.get(360).unwrap().head {
        Factor::Number(n) => assert_eq!(n.text, 8),
        _ => panic!("expected the width expression"),
    }
}

#[test]
fn handler_stacks_are_empty_after_the_pass() {
    let mut it = StrTable::new();
    let p_text = it.intern(String::from("P"));
    let a_text = it.intern(String::from("A"));
    let b_text = it.intern(String::from("B"));
    let (tree, _b_ref, _a_ref) = mutually_referential_package(p_text, a_text, b_text);
    let mut st = SymbolTable::new();
    st.insert(
        vec![p_text],
        Symbol { kind: SymbolKind::Package, namespace: vec![], token: tk(2, 1, 9, 1, p_text) },
    );
    st.insert(
        vec![a_text],
        Symbol { kind: SymbolKind::Struct, namespace: vec![p_text], token: tk(10, 2, 8, 1, a_text) },
    );
    st.insert(
        vec![b_text],
        Symbol { kind: SymbolKind::Struct, namespace: vec![p_text], token: tk(20, 5, 8, 1, b_text) },
    );
    let mut nt = NamespaceTable::new();
    nt.insert(2, vec![]);
    for id in [10u64, 12, 20, 22] {
        nt.insert(id, vec![p_text]);
    }
    let mut dag = TypeDag::new();
    let dag_handler = create_type_dag_file(&tree, &st, &nt, &it, &mut dag);
    assert_eq!(dag_handler.open_scopes(), 0);
    let mut msb = MsbTable::new();
    let msb_handler = check_msb_lsb_file(&tree, &st, &nt, &mut msb);
    assert_eq!(msb_handler.open_depth(), 0);
}
