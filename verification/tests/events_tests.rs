use veryl_core::events::{walk_events, DeclKind, Event};
use veryl_core::token::Token;
use veryl_core::tree::{
    Description, Expression, Factor, ModuleDeclaration, ModuleItem, ScalarKind, ScalarType,
    ScopedIdentifier, TypeDefDeclaration, Veryl,
};

fn tkn(id: u64, text: usize) -> Token {
    Token::new(id, 1, 1, 1, text)
}

#[test]
fn walk_emits_nested_balanced_events() {
    // module M { type T = U; } walks the module, the alias declaration and
    // the type reference in source order, with balanced enter/leave pairs
    let target = tkn(5, 30);
    let tree = Veryl {
        descriptions: vec![Description::Module(ModuleDeclaration {
            kw: tkn(1, 10),
            identifier: tkn(2, 11),
            parameters: None,
            ports: None,
            l_brace: tkn(3, 12),
            items: vec![ModuleItem::TypeDef(TypeDefDeclaration {
                kw: tkn(4, 13),
                identifier: tkn(6, 14),
                equ: tkn(7, 15),
                ty: veryl_core::tree::ArrayType {
                    scalar: ScalarType {
                        modifiers: Vec::new(),
                        kind: ScalarKind::UserDefined {
                            identifier: ScopedIdentifier { first: target, rest: Vec::new() },
                            width: None,
                        },
                    },
                    array: None,
                },
                semicolon: tkn(8, 16),
            })],
            r_brace: tkn(9, 17),
        })],
    };
    let events = walk_events(&tree);
    let expected = vec![
        Event::EnterDecl(DeclKind::Module, tkn(2, 11)),
        Event::EnterDecl(DeclKind::TypeDef, tkn(6, 14)),
        Event::EnterScopedId(target),
        Event::Ident(target),
        Event::LeaveScopedId,
        Event::LeaveDecl(DeclKind::TypeDef),
        Event::LeaveDecl(DeclKind::Module),
    ];
    assert_eq!(events, expected);
}

#[test]
fn expression_identifiers_nest_in_selects() {
    // a[b] opens the outer identifier, then the inner one inside the select
    let a_tok = tkn(1, 20);
    let b_tok = tkn(2, 21);
    let inner = veryl_core::tree::ExpressionIdentifier {
        head: ScopedIdentifier { first: b_tok, rest: Vec::new() },
        head_selects: Vec::new(),
        rest: Vec::new(),
    };
    let outer = veryl_core::tree::ExpressionIdentifier {
        head: ScopedIdentifier { first: a_tok, rest: Vec::new() },
        head_selects: vec![veryl_core::tree::Select {
            l_bracket: tkn(3, 22),
            expression: Expression { head: Factor::ExprId(Box::new(inner)), tail: Vec::new() },
            select_opt: None,
            r_bracket: tkn(4, 23),
        }],
        rest: Vec::new(),
    };
    let tree = Veryl {
        descriptions: vec![Description::Module(ModuleDeclaration {
            kw: tkn(10, 24),
            identifier: tkn(11, 25),
            parameters: None,
            ports: None,
            l_brace: tkn(12, 26),
            items: vec![ModuleItem::Assign(veryl_core::tree::AssignDeclaration {
                kw: tkn(13, 27),
                target: veryl_core::tree::ExpressionIdentifier {
                    head: ScopedIdentifier { first: tkn(14, 28), rest: Vec::new() },
                    head_selects: Vec::new(),
                    rest: Vec::new(),
                },
                equ: tkn(15, 29),
                expression: Expression { head: Factor::ExprId(Box::new(outer)), tail: Vec::new() },
                semicolon: tkn(16, 31),
            })],
            r_brace: tkn(17, 32),
        })],
    };
    let events = walk_events(&tree);
    // the outer identifier's select encloses the inner identifier
    let outer_enter = events.iter().position(|e| *e == Event::EnterExprIdent(a_tok)).unwrap();
    let select_enter = outer_enter + 4;
    assert_eq!(events[select_enter], Event::EnterSelect);
    assert_eq!(events[select_enter + 1], Event::EnterExprIdent(b_tok));
    assert_eq!(events[select_enter + 5], Event::LeaveExprIdent);
    assert_eq!(events[select_enter + 6], Event::LeaveSelect);
    assert_eq!(events[select_enter + 7], Event::LeaveExprIdent);
}
