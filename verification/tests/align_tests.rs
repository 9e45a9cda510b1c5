use veryl_core::align::Location;
use veryl_core::symbol::{Symbol, SymbolKind, SymbolTable, Type, TypeKind};
use veryl_core::tables::NamespaceTable;
use veryl_core::token::Token;
use veryl_core::tree::{
    AlwaysBlock, ArrayDims, ArrayType, CommaExpression, ConstDeclaration, ConstTypeGroup,
    Description, Direction, Expression, ExpressionIdentifier, Factor, IdentifierStatement,
    InstDeclaration, InstPortItem, InstPortList, LetDeclaration, ModuleDeclaration, ModuleItem,
    PortDeclarationItem, PortDeclarationList, PortTypeGroup, ScalarKind, ScalarType,
    ScopedIdentifier, StructUnionDeclaration, StructUnionItem, VariableKind, Veryl, Width,
    WithParameterItem, WithParameterList,
};
use veryl_core::tree::{CaseArm, CaseExpression};
use veryl_core::walker::{Build, BuiltinType, Metadata};

fn tok2(id: u64, line: u32, column: u32, length: u32, text: usize) -> Token {
    Token::new(id, line, column, length, text)
}

fn number(id: u64, line: u32, column: u32, text: usize) -> Expression {
    Expression { head: Factor::Number(tok2(id, line, column, 1, text)), tail: Vec::new() }
}

fn plain_logic(id: u64, line: u32, column: u32) -> ArrayType {
    ArrayType {
        scalar: ScalarType {
            modifiers: Vec::new(),
            kind: ScalarKind::Variable {
                token: tok2(id, line, column, 5, 88),
                kind: VariableKind::Logic,
                width: None,
            },
        },
        array: None,
    }
}

fn let_line(base: u64, line: u32, name_len: u32) -> LetDeclaration {
    LetDeclaration {
        kw: tok2(base, line, 1, 3, 40),
        identifier: tok2(base + 1, line, 5, name_len, 41),
        colon: tok2(base + 2, line, 5 + name_len, 1, 42),
        clock_domain: None,
        ty: plain_logic(base + 3, line, 8 + name_len),
        equ: tok2(base + 4, line, 20, 1, 43),
        expression: number(base + 5, line, 22, 44),
        semicolon: tok2(base + 6, line, 23, 1, 45),
    }
}

fn module_of(items: Vec<ModuleItem>) -> Veryl {
    Veryl {
        descriptions: vec![Description::Module(ModuleDeclaration {
            kw: tok2(1000, 1, 1, 6, 50),
            identifier: tok2(1001, 1, 8, 1, 51),
            parameters: None,
            ports: None,
            l_brace: tok2(1002, 1, 10, 1, 52),
            items,
            r_brace: tok2(1003, 20, 1, 1, 53),
        })],
    }
}

fn loc_of(t: Token) -> Location {
    Location { line: t.line, column: t.column, length: t.length, duplicated: None }
}

#[test]
fn consecutive_lets_align_their_names() {
    // identifiers of widths 3, 5 and 4 on consecutive lines pad 2, 0 and 1
    let l1 = let_line(100, 2, 3);
    let l2 = let_line(110, 3, 5);
    let l3 = let_line(120, 4, 4);
    let id1 = l1.identifier;
    let id2 = l2.identifier;
    let id3 = l3.identifier;
    let tree = module_of(vec![ModuleItem::Let(l1), ModuleItem::Let(l2), ModuleItem::Let(l3)]);
    let st = SymbolTable::new();
    let nt = NamespaceTable::new();
    let mut aligner = veryl_core::formatter::Aligner::new();
    aligner.align(&st, &nt, &tree);
    assert_eq!(aligner.addition_of(&loc_of(id1)), Some(2));
    assert_eq!(aligner.addition_of(&loc_of(id2)), Some(0));
    assert_eq!(aligner.addition_of(&loc_of(id3)), Some(1));
}

#[test]
fn blank_line_resets_the_group() {
    // lines 2,3 form one group; lines 5,6 (after a blank line) another
    let l1 = let_line(100, 2, 3);
    let l2 = let_line(110, 3, 5);
    let l3 = let_line(120, 5, 7);
    let l4 = let_line(130, 6, 4);
    let ids = [l1.identifier, l2.identifier, l3.identifier, l4.identifier];
    let tree = module_of(vec![
        ModuleItem::Let(l1),
        ModuleItem::Let(l2),
        ModuleItem::Let(l3),
        ModuleItem::Let(l4),
    ]);
    let st = SymbolTable::new();
    let nt = NamespaceTable::new();
    let mut aligner = veryl_core::formatter::Aligner::new();
    aligner.align(&st, &nt, &tree);
    assert_eq!(aligner.addition_of(&loc_of(ids[0])), Some(2));
    assert_eq!(aligner.addition_of(&loc_of(ids[1])), Some(0));
    // the second group has its own maximum of 7
    assert_eq!(aligner.addition_of(&loc_of(ids[2])), Some(0));
    assert_eq!(aligner.addition_of(&loc_of(ids[3])), Some(3));
}

#[test]
fn paddings_of_different_kinds_sum_per_location() {
    // two struct fields: `a: bit<8>;` and `bb: logic;` - the second type
    // token collects the type padding and the width placeholder padding
    let bit_tok = tok2(210, 2, 8, 3, 60);
    let width = Width {
        l_angle: tok2(211, 2, 11, 1, 61),
        expression: number(212, 2, 12, 62),
        rest: Vec::new(),
        r_angle: tok2(213, 2, 13, 1, 63),
    };
    let item1 = StructUnionItem {
        identifier: tok2(200, 2, 3, 1, 64),
        colon: tok2(201, 2, 4, 1, 65),
        ty: ScalarType {
            modifiers: Vec::new(),
            kind: ScalarKind::Variable {
                token: bit_tok,
                kind: VariableKind::Bit,
                width: Some(width),
            },
        },
        semicolon: tok2(214, 2, 15, 1, 66),
    };
    let logic_tok = tok2(220, 3, 8, 5, 67);
    let item2 = StructUnionItem {
        identifier: tok2(221, 3, 3, 2, 68),
        colon: tok2(222, 3, 5, 1, 65),
        ty: ScalarType {
            modifiers: Vec::new(),
            kind: ScalarKind::Variable { token: logic_tok, kind: VariableKind::Logic, width: None },
        },
        semicolon: tok2(223, 3, 14, 1, 66),
    };
    let tree = module_of(vec![ModuleItem::StructUnion(StructUnionDeclaration {
        kw: tok2(230, 1, 12, 6, 69),
        is_union: false,
        identifier: tok2(231, 1, 19, 1, 70),
        l_brace: tok2(232, 1, 21, 1, 71),
        items: vec![item1, item2],
        r_brace: tok2(233, 4, 1, 1, 72),
    })]);
    let st = SymbolTable::new();
    let nt = NamespaceTable::new();
    let mut aligner = veryl_core::formatter::Aligner::new();
    aligner.align(&st, &nt, &tree);
    // type cells: bit=3 vs logic=5, so bit pads 2 and logic 0; width cells:
    // <8> = 3 vs placeholder 0 anchored at the logic token, which pads 3.
    // the logic token therefore receives 0 + 3 = 3
    assert_eq!(aligner.addition_of(&loc_of(bit_tok)), Some(2));
    assert_eq!(aligner.addition_of(&loc_of(logic_tok)), Some(3));
}

#[test]
fn walking_twice_gives_identical_paddings() {
    let l1 = let_line(100, 2, 3);
    let l2 = let_line(110, 3, 6);
    let tree = module_of(vec![ModuleItem::Let(l1), ModuleItem::Let(l2)]);
    let st = SymbolTable::new();
    let nt = NamespaceTable::new();
    let mut first = veryl_core::formatter::Aligner::new();
    first.align(&st, &nt, &tree);
    let mut second = veryl_core::formatter::Aligner::new();
    second.align(&st, &nt, &tree);
    assert_eq!(first.additions.len(), second.additions.len());
    for i in 0..first.additions.len() {
        let (loc, v) = first.additions.entry_at(i);
        assert_eq!(second.addition_of(&loc), Some(v));
    }
}

#[test]
fn emitter_substitutes_keyword_widths() {
    // `var x: clock;` renders clock as logic (5), `var y: bit;` keeps bit (3)
    let clock_tok = tok2(300, 2, 10, 5, 60);
    let bit_tok = tok2(310, 3, 10, 3, 61);
    let v1 = ModuleItem::Var(veryl_core::tree::VarDeclaration {
        kw: tok2(301, 2, 1, 3, 62),
        identifier: tok2(302, 2, 5, 1, 63),
        colon: tok2(303, 2, 6, 1, 64),
        clock_domain: None,
        ty: ArrayType {
            scalar: ScalarType {
                modifiers: Vec::new(),
                kind: ScalarKind::Variable { token: clock_tok, kind: VariableKind::Clock, width: None },
            },
            array: None,
        },
        semicolon: tok2(304, 2, 16, 1, 65),
    });
    let v2 = ModuleItem::Var(veryl_core::tree::VarDeclaration {
        kw: tok2(311, 3, 1, 3, 62),
        identifier: tok2(312, 3, 5, 1, 66),
        colon: tok2(313, 3, 6, 1, 64),
        clock_domain: None,
        ty: ArrayType {
            scalar: ScalarType {
                modifiers: Vec::new(),
                kind: ScalarKind::Variable { token: bit_tok, kind: VariableKind::Bit, width: None },
            },
            array: None,
        },
        semicolon: tok2(314, 3, 14, 1, 65),
    });
    let tree = module_of(vec![v1, v2]);
    let st = SymbolTable::new();
    let nt = NamespaceTable::new();
    let mut aligner = veryl_core::emitter::Aligner::new();
    aligner.align(&st, &nt, &tree);
    // type cells measure 1+5 and 1+3: the bit line pads by 2 at its type token
    let clock_loc = Location { line: 2, column: 10, length: 5, duplicated: None };
    let bit_loc = Location { line: 3, column: 10, length: 3, duplicated: None };
    assert_eq!(aligner.addition_of(&clock_loc), Some(0));
    assert_eq!(aligner.addition_of(&bit_loc), Some(2));
}

#[test]
fn emitter_suppresses_implicit_parameter_types() {
    // with u32 implicit, `const K: u32 = 0;` contributes a zero-width type
    // placeholder anchored at the const keyword; `const L: bit = 0;` measures
    // its type normally and sets the column width
    let kw1 = tok2(400, 2, 1, 5, 60);
    let u32_tok = tok2(403, 2, 10, 3, 61);
    let c1 = ModuleItem::Const(ConstDeclaration {
        kw: kw1,
        identifier: tok2(401, 2, 7, 1, 62),
        colon: tok2(402, 2, 8, 1, 63),
        ty: ConstTypeGroup::Arr(ArrayType {
            scalar: ScalarType {
                modifiers: Vec::new(),
                kind: ScalarKind::Fixed { token: u32_tok, kind: veryl_core::tree::FixedKind::U32 },
            },
            array: None,
        }),
        equ: tok2(404, 2, 14, 1, 64),
        expression: number(405, 2, 16, 65),
        semicolon: tok2(406, 2, 17, 1, 66),
    });
    let bit_tok = tok2(413, 3, 10, 3, 67);
    let c2 = ModuleItem::Const(ConstDeclaration {
        kw: tok2(410, 3, 1, 5, 60),
        identifier: tok2(411, 3, 7, 1, 68),
        colon: tok2(412, 3, 8, 1, 63),
        ty: ConstTypeGroup::Arr(ArrayType {
            scalar: ScalarType {
                modifiers: Vec::new(),
                kind: ScalarKind::Variable { token: bit_tok, kind: VariableKind::Bit, width: None },
            },
            array: None,
        }),
        equ: tok2(414, 3, 14, 1, 64),
        expression: number(415, 3, 16, 65),
        semicolon: tok2(416, 3, 17, 1, 66),
    });
    let tree = module_of(vec![c1, c2]);
    let st = SymbolTable::new();
    let nt = NamespaceTable::new();
    let mut aligner = veryl_core::emitter::Aligner::new();
    aligner.set_metadata(&Metadata {
        project_name: String::from("demo"),
        build: Build { implicit_parameter_types: vec![BuiltinType::U32] },
    });
    aligner.align(&st, &nt, &tree);
    // the implicit type cell is zero wide, the bit cell measures 1+3
    assert_eq!(aligner.addition_of(&loc_of(kw1)), Some(4));
    assert_eq!(aligner.addition_of(&loc_of(bit_tok)), Some(0));
}

#[test]
fn bare_instance_port_gets_its_own_column_copy() {
    // a bare port connection stands for itself: the emitter pads a synthetic
    // copy of the identifier, the formatter inserts the missing `: ` directly
    let p_tok = tok2(500, 2, 5, 2, 60);
    let inst = ModuleItem::Inst(InstDeclaration {
        kw: tok2(501, 2, 1, 4, 61),
        identifier: tok2(502, 2, 6, 1, 62),
        colon: tok2(503, 2, 7, 1, 63),
        target: ScopedIdentifier { first: tok2(504, 2, 9, 3, 64), rest: Vec::new() },
        array: None,
        parameters: None,
        ports: Some(InstPortList {
            l_paren: tok2(505, 2, 13, 1, 65),
            items: vec![InstPortItem { identifier: p_tok, value: None }],
            r_paren: tok2(506, 2, 20, 1, 66),
        }),
        semicolon: tok2(507, 2, 21, 1, 67),
    });
    let tree = module_of(vec![inst]);
    let st = SymbolTable::new();
    let nt = NamespaceTable::new();

    let mut fmt = veryl_core::formatter::Aligner::new();
    fmt.align(&st, &nt, &tree);
    // the direct insertion of ": " is two characters
    assert_eq!(fmt.addition_of(&loc_of(p_tok)), Some(2));

    let mut emit = veryl_core::emitter::Aligner::new();
    emit.align(&st, &nt, &tree);
    let dup_loc = Location { line: 2, column: 5, length: 2, duplicated: Some(0) };
    assert_eq!(emit.addition_of(&dup_loc), Some(0));
}

#[test]
fn assignments_and_targets_align_in_blocks() {
    let target = |id: u64, line: u32, len: u32, text: usize| ExpressionIdentifier {
        head: ScopedIdentifier { first: tok2(id, line, 3, len, text), rest: Vec::new() },
        head_selects: Vec::new(),
        rest: Vec::new(),
    };
    let s1 = IdentifierStatement {
        target: target(600, 2, 1, 60),
        operator: tok2(601, 2, 6, 1, 61),
        expression: number(602, 2, 8, 62),
        semicolon: tok2(603, 2, 9, 1, 63),
    };
    let s2 = IdentifierStatement {
        target: target(610, 3, 3, 64),
        operator: tok2(611, 3, 8, 2, 65),
        expression: number(612, 3, 11, 62),
        semicolon: tok2(613, 3, 12, 1, 63),
    };
    let t1 = s1.target.head.first;
    let op1 = s1.operator;
    let tree = module_of(vec![ModuleItem::Always(AlwaysBlock {
        kw: tok2(620, 1, 12, 9, 66),
        l_brace: tok2(621, 1, 22, 1, 67),
        statements: vec![s1, s2],
        r_brace: tok2(622, 4, 1, 1, 68),
    })]);
    let st = SymbolTable::new();
    let nt = NamespaceTable::new();
    let mut aligner = veryl_core::formatter::Aligner::new();
    aligner.align(&st, &nt, &tree);
    // target widths 1 and 3 pad 2 and 0; operator widths 1 and 2 pad 1 and 0
    assert_eq!(aligner.addition_of(&loc_of(t1)), Some(2));
    assert_eq!(aligner.addition_of(&loc_of(op1)), Some(1));
}

#[test]
fn parameter_keywords_align_at_rendered_widths() {
    let item = |base: u64, line: u32, is_param: bool, name_len: u32| WithParameterItem {
        kw: tok2(base, line, 3, if is_param { 5 } else { 5 }, 60),
        is_param,
        identifier: tok2(base + 1, line, 10, name_len, 61),
        colon: tok2(base + 2, line, 10 + name_len, 1, 62),
        ty: ConstTypeGroup::Arr(plain_logic(base + 3, line, 14)),
        equ: tok2(base + 4, line, 22, 1, 63),
        expression: number(base + 5, line, 24, 64),
    };
    let i1 = item(700, 2, true, 1);
    let i2 = item(710, 3, false, 3);
    let kw1 = i1.kw;
    let tree = Veryl {
        descriptions: vec![Description::Module(ModuleDeclaration {
            kw: tok2(1000, 1, 1, 6, 50),
            identifier: tok2(1001, 1, 8, 1, 51),
            parameters: Some(WithParameterList {
                hash: tok2(1004, 1, 10, 1, 54),
                l_paren: tok2(1005, 1, 11, 1, 55),
                items: vec![i1, i2],
                r_paren: tok2(1006, 4, 1, 1, 56),
            }),
            ports: None,
            l_brace: tok2(1002, 5, 1, 1, 52),
            items: vec![],
            r_brace: tok2(1003, 6, 1, 1, 53),
        })],
    };
    let st = SymbolTable::new();
    let nt = NamespaceTable::new();
    let mut aligner = veryl_core::emitter::Aligner::new();
    aligner.align(&st, &nt, &tree);
    // the keyword column measures the rendered spellings: 9 for the
    // parameter line, 10 for the localparam line, so the first pads by 1
    let kw1_loc = Location { line: 2, column: 3, length: 9, duplicated: None };
    assert_eq!(aligner.addition_of(&kw1_loc), Some(1));
    let _ = kw1;
}

#[test]
fn missing_array_dimensions_still_make_a_column() {
    let _ = CommaExpression { comma: tok2(0, 1, 1, 1, 0), expression: number(1, 1, 1, 0) };
    let mut l1 = let_line(100, 2, 3);
    l1.ty.array = Some(ArrayDims {
        l_bracket: tok2(107, 2, 14, 1, 46),
        expression: number(108, 2, 15, 47),
        rest: Vec::new(),
        r_bracket: tok2(109, 2, 16, 1, 48),
    });
    let l2 = let_line(110, 3, 3);
    let logic2 = match &l2.ty.scalar.kind {
        ScalarKind::Variable { token, .. } => *token,
        _ => unreachable!(),
    };
    let tree = module_of(vec![ModuleItem::Let(l1), ModuleItem::Let(l2)]);
    let st = SymbolTable::new();
    let nt = NamespaceTable::new();
    let mut aligner = veryl_core::formatter::Aligner::new();
    aligner.align(&st, &nt, &tree);
    // array cells measure 4 (space and [4]) and 0 (placeholder anchored at
    // the second line's type token): the placeholder pads by 4 there
    assert_eq!(aligner.addition_of(&loc_of(logic2)), Some(4));
}

#[test]
fn port_directions_and_clock_domains_align() {
    let dir1 = tok2(800, 2, 8, 5, 60);
    let dir2 = tok2(810, 3, 8, 6, 61);
    let p1 = PortDeclarationItem {
        identifier: tok2(801, 2, 3, 1, 62),
        colon: tok2(802, 2, 4, 1, 63),
        port: PortTypeGroup::Concrete {
            direction: Direction::Input(dir1),
            clock_domain: None,
            ty: plain_logic(803, 2, 15),
        },
    };
    let p2 = PortDeclarationItem {
        identifier: tok2(811, 3, 3, 2, 64),
        colon: tok2(812, 3, 5, 1, 63),
        port: PortTypeGroup::Concrete {
            direction: Direction::Output(dir2),
            clock_domain: None,
            ty: plain_logic(813, 3, 16),
        },
    };
    let tree = Veryl {
        descriptions: vec![Description::Module(ModuleDeclaration {
            kw: tok2(1000, 1, 1, 6, 50),
            identifier: tok2(1001, 1, 8, 1, 51),
            parameters: None,
            ports: Some(PortDeclarationList {
                l_paren: tok2(1004, 1, 10, 1, 54),
                items: vec![p1, p2],
                r_paren: tok2(1005, 4, 1, 1, 55),
            }),
            l_brace: tok2(1002, 5, 1, 1, 52),
            items: vec![],
            r_brace: tok2(1003, 6, 1, 1, 53),
        })],
    };
    let st = SymbolTable::new();
    let nt = NamespaceTable::new();
    let mut aligner = veryl_core::formatter::Aligner::new();
    aligner.align(&st, &nt, &tree);
    // direction widths 5 and 6: the input line pads by 1; the clock-domain
    // placeholders are anchored at the same tokens and add nothing
    assert_eq!(aligner.addition_of(&loc_of(dir1)), Some(1));
    assert_eq!(aligner.addition_of(&loc_of(dir2)), Some(0));
}

#[test]
fn case_arm_conditions_align() {
    // a case expression in a let value: each arm condition is a cell of the
    // expression column
    let c1 = tok2(900, 3, 3, 1, 60);
    let c2 = tok2(910, 4, 3, 2, 61);
    let default_tok = tok2(920, 5, 3, 7, 62);
    let arm = |cond: Token, base: u64| CaseArm {
        condition: Expression { head: Factor::Number(cond), tail: Vec::new() },
        condition_rest: Vec::new(),
        colon: tok2(base, cond.line, 11, 1, 63),
        expression: number(base + 1, cond.line, 13, 64),
        comma: tok2(base + 2, cond.line, 14, 1, 65),
    };
    let case = CaseExpression {
        case: tok2(930, 2, 16, 4, 66),
        subject: number(931, 2, 21, 67),
        l_brace: tok2(932, 2, 23, 1, 68),
        arms: vec![arm(c1, 901), arm(c2, 911)],
        defaul: default_tok,
        default_colon: tok2(921, 5, 11, 1, 63),
        default_expression: number(922, 5, 13, 64),
        r_brace: tok2(933, 6, 1, 1, 69),
    };
    let mut l1 = let_line(100, 2, 3);
    l1.expression = Expression { head: Factor::CaseExpr(Box::new(case)), tail: Vec::new() };
    let tree = module_of(vec![ModuleItem::Let(l1)]);
    let st = SymbolTable::new();
    let nt = NamespaceTable::new();
    let mut aligner = veryl_core::formatter::Aligner::new();
    aligner.align(&st, &nt, &tree);
    // condition widths 1, 2 and 7: the default keyword is the widest
    assert_eq!(aligner.addition_of(&loc_of(c1)), Some(6));
    assert_eq!(aligner.addition_of(&loc_of(c2)), Some(5));
    assert_eq!(aligner.addition_of(&loc_of(default_tok)), Some(0));
}

#[test]
fn emitter_measures_identifier_prefix_and_suffix() {
    // the first name resolves to a variable with a prefix and a suffix, so
    // its rendered width is 1 + 2 + 2 = 5; the second name measures 3
    let mut l1 = let_line(100, 2, 1);
    l1.identifier = tok2(101, 2, 5, 1, 98);
    let mut l2 = let_line(110, 3, 3);
    l2.identifier = tok2(111, 3, 5, 3, 99);
    let id1 = l1.identifier;
    let id2 = l2.identifier;
    let tree = module_of(vec![ModuleItem::Let(l1), ModuleItem::Let(l2)]);
    let mut st = SymbolTable::new();
    st.insert(
        vec![id1.text],
        Symbol {
            kind: SymbolKind::Variable {
                ty: Type {
                    kind: TypeKind::Variable(VariableKind::Logic),
                    array: vec![],
                    width: vec![],
                },
                prefix: Some(String::from("p_")),
                suffix: Some(String::from("_q")),
            },
            namespace: vec![],
            token: id1,
        },
    );
    let mut nt = NamespaceTable::new();
    nt.insert(id1.id, vec![]);
    nt.insert(id2.id, vec![]);
    let mut aligner = veryl_core::emitter::Aligner::new();
    aligner.align(&st, &nt, &tree);
    let id1_loc = Location { line: 2, column: 5, length: 5, duplicated: None };
    assert_eq!(aligner.addition_of(&id1_loc), Some(0));
    assert_eq!(aligner.addition_of(&loc_of(id2)), Some(2));
}

#[test]
fn nested_case_keeps_the_outer_expression_cell() {
    // a case expression inside a parameter's value cell: the arms open no
    // cell of their own, everything measures into the outer expression cell
    let c1 = tok2(950, 2, 30, 1, 60);
    let case = CaseExpression {
        case: tok2(951, 2, 24, 4, 66),
        subject: number(952, 2, 29, 67),
        l_brace: tok2(953, 2, 31, 1, 68),
        arms: vec![CaseArm {
            condition: Expression { head: Factor::Number(c1), tail: Vec::new() },
            condition_rest: Vec::new(),
            colon: tok2(954, 2, 33, 1, 63),
            expression: number(955, 2, 35, 64),
            comma: tok2(956, 2, 36, 1, 65),
        }],
        defaul: tok2(957, 2, 38, 7, 62),
        default_colon: tok2(958, 2, 45, 1, 63),
        default_expression: number(959, 2, 47, 64),
        r_brace: tok2(960, 2, 49, 1, 69),
    };
    let item = WithParameterItem {
        kw: tok2(900, 2, 3, 5, 70),
        is_param: true,
        identifier: tok2(901, 2, 10, 1, 71),
        colon: tok2(902, 2, 11, 1, 72),
        ty: ConstTypeGroup::Arr(plain_logic(903, 2, 13)),
        equ: tok2(904, 2, 21, 1, 73),
        expression: Expression { head: Factor::CaseExpr(Box::new(case)), tail: Vec::new() },
    };
    let tree = Veryl {
        descriptions: vec![Description::Module(ModuleDeclaration {
            kw: tok2(1000, 1, 1, 6, 50),
            identifier: tok2(1001, 1, 8, 1, 51),
            parameters: Some(WithParameterList {
                hash: tok2(1004, 1, 10, 1, 54),
                l_paren: tok2(1005, 1, 11, 1, 55),
                items: vec![item],
                r_paren: tok2(1006, 3, 1, 1, 56),
            }),
            ports: None,
            l_brace: tok2(1002, 4, 1, 1, 52),
            items: vec![],
            r_brace: tok2(1003, 5, 1, 1, 53),
        })],
    };
    let st = SymbolTable::new();
    let nt = NamespaceTable::new();
    let mut aligner = veryl_core::formatter::Aligner::new();
    aligner.align(&st, &nt, &tree);
    // the arm condition anchors no cell of its own: no padding keyed there
    assert_eq!(aligner.addition_of(&loc_of(c1)), None);
    // the one expression cell of the group pads zero at its last token
    let r_brace_loc = Location { line: 2, column: 49, length: 1, duplicated: None };
    assert_eq!(aligner.addition_of(&r_brace_loc), Some(0));
}
