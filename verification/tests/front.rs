use microc::ast::climbers::from_cond;
use microc::ast::climbers::from_expr;
use microc::ast::climbers::from_lval;
use microc::ast::construct::from_statement;
use microc::ast::BinOp;
use microc::ast::CondOp;
use microc::ast::Node;
use microc::error::ErrorKind;
use microc::parser::parse_program;
use microc::parser::Pair;
use microc::parser::Rule;
use microc::symtable::CType;
use microc::symtable::SymTable;
use microc::symtable::SymbolType;

fn leaf(rule: Rule, text: &str) -> Pair {
    Pair::leaf(rule, text)
}

fn node(rule: Rule, inner: Vec<Pair>) -> Pair {
    Pair::node(rule, "", inner)
}

fn ident(name: &str) -> Pair {
    leaf(Rule::Ident, name)
}

fn number(text: &str) -> Pair {
    leaf(Rule::IntLit, text)
}

fn op(rule: Rule) -> Pair {
    leaf(rule, "")
}

fn ty(base: Rule, pointers: usize) -> Pair {
    let mut inner = vec![op(base)];
    for _ in 0..pointers {
        inner.push(op(Rule::Ptr));
    }
    node(Rule::BaseType, inner)
}

fn var_decl(base: Rule, pointers: usize, name: &str) -> Pair {
    node(Rule::VarDecl, vec![ty(base, pointers), ident(name)])
}

fn function(ret: Pair, name: &str, params: Vec<Pair>, members: Vec<Pair>) -> Pair {
    let mut inner = vec![ret, ident(name), node(Rule::Params, params)];
    inner.extend(members);
    node(Rule::Function, inner)
}

fn assign(lval: Vec<Pair>, expr: Vec<Pair>) -> Pair {
    node(Rule::AssignStmt, vec![node(Rule::Lval, lval), node(Rule::Expr, expr)])
}

fn ptr(t: CType) -> CType {
    CType::Ptr(Box::new(t))
}

fn var(ctype: CType, name: &str, scope: usize) -> Node {
    Node::Var { ctype, ident: name.to_string(), scope }
}

fn lit(ctype: CType, val: i32) -> Node {
    Node::IntLit { ctype, val }
}

fn table_with(globals: &[(CType, &str)]) -> SymTable {
    let mut t = SymTable::new(0x20000000, 0x10000000);
    for (ctype, name) in globals {
        t.add_symbol(ctype.clone(), name.to_string(), SymbolType::Global).unwrap();
    }
    t
}

#[test]
fn precedence_of_times_over_plus() {
    let t = table_with(&[(CType::Int, "a"), (CType::Int, "b"), (CType::Int, "c")]);
    let tokens = vec![ident("a"), op(Rule::Plus), ident("b"), op(Rule::Times), ident("c")];
    let got = from_expr(&tokens, &t).unwrap();
    let expected = Node::BinaryOp {
        ctype: CType::Int,
        op: BinOp::Plus,
        lhs: Box::new(var(CType::Int, "a", 0)),
        rhs: Box::new(Node::BinaryOp {
            ctype: CType::Int,
            op: BinOp::Times,
            lhs: Box::new(var(CType::Int, "b", 0)),
            rhs: Box::new(var(CType::Int, "c", 0)),
        }),
    };
    assert_eq!(got, expected);
}

#[test]
fn minus_associates_to_the_left() {
    let t = table_with(&[(CType::Int, "a")]);
    let tokens = vec![ident("a"), op(Rule::Minus), number("2"), op(Rule::Minus), number("3")];
    let got = from_expr(&tokens, &t).unwrap();
    let expected = Node::BinaryOp {
        ctype: CType::Int,
        op: BinOp::Minus,
        lhs: Box::new(Node::BinaryOp {
            ctype: CType::Int,
            op: BinOp::Minus,
            lhs: Box::new(var(CType::Int, "a", 0)),
            rhs: Box::new(lit(CType::Int, 2)),
        }),
        rhs: Box::new(lit(CType::Int, 3)),
    };
    assert_eq!(got, expected);
}

#[test]
fn negation_binds_tighter_than_times_and_looser_than_indexing() {
    let t = table_with(&[(ptr(CType::Int), "p"), (CType::Int, "b")]);
    // -p[1] * b
    let tokens = vec![
        op(Rule::Neg),
        ident("p"),
        node(Rule::ArrayExpr, vec![node(Rule::Expr, vec![number("1")])]),
        op(Rule::Times),
        ident("b"),
    ];
    let got = from_expr(&tokens, &t).unwrap();
    let indexed = Node::Dereference {
        ctype: CType::Int,
        expr: Box::new(Node::BinaryOp {
            ctype: ptr(CType::Int),
            op: BinOp::Plus,
            lhs: Box::new(var(ptr(CType::Int), "p", 0)),
            rhs: Box::new(Node::BinaryOp {
                ctype: CType::Int,
                op: BinOp::Times,
                lhs: Box::new(lit(CType::Int, 1)),
                rhs: Box::new(lit(ptr(CType::Int), 4)),
            }),
        }),
    };
    let expected = Node::BinaryOp {
        ctype: CType::Int,
        op: BinOp::Times,
        lhs: Box::new(Node::UnaryOp { ctype: CType::Int, expr: Box::new(indexed) }),
        rhs: Box::new(var(CType::Int, "b", 0)),
    };
    assert_eq!(got, expected);
}

#[test]
fn int_float_promotion_in_an_expression() {
    let t = table_with(&[(CType::Int, "a"), (CType::Float, "b")]);
    let tokens = vec![ident("a"), op(Rule::Plus), leaf(Rule::FloatLit, "1.5")];
    let got = from_expr(&tokens, &t).unwrap();
    let expected = Node::BinaryOp {
        ctype: CType::Float,
        op: BinOp::Plus,
        lhs: Box::new(Node::Cast {
            ctype: CType::Float,
            expr: Box::new(var(CType::Int, "a", 0)),
        }),
        rhs: Box::new(Node::FloatLit { ctype: CType::Float, val: "1.5".to_string() }),
    };
    assert_eq!(got, expected);
}

#[test]
fn int_sum_assigned_to_a_float_is_cast() {
    let t = table_with(&[(CType::Int, "a"), (CType::Float, "b")]);
    let stmt = assign(vec![ident("b")], vec![ident("a"), op(Rule::Plus), number("1")]);
    let got = from_statement(&stmt, &t).unwrap();
    let expected = Node::Assign {
        ctype: CType::Float,
        lhs: Box::new(var(CType::Float, "b", 0)),
        rhs: Box::new(Node::Cast {
            ctype: CType::Float,
            expr: Box::new(Node::BinaryOp {
                ctype: CType::Int,
                op: BinOp::Plus,
                lhs: Box::new(var(CType::Int, "a", 0)),
                rhs: Box::new(lit(CType::Int, 1)),
            }),
        }),
    };
    assert_eq!(got, expected);
}

#[test]
fn pointer_plus_int_in_a_target_retypes_the_int() {
    let t = table_with(&[(ptr(CType::Int), "p")]);
    let tokens = vec![ident("p"), op(Rule::Plus), number("1")];
    let got = from_lval(&tokens, &t).unwrap();
    let expected = Node::BinaryOp {
        ctype: ptr(CType::Int),
        op: BinOp::Plus,
        lhs: Box::new(var(ptr(CType::Int), "p", 0)),
        rhs: Box::new(lit(ptr(CType::Int), 1)),
    };
    assert_eq!(got, expected);
}

#[test]
fn pointer_plus_int_in_an_expression_is_a_type_error() {
    let t = table_with(&[(ptr(CType::Int), "p")]);
    let tokens = vec![ident("p"), op(Rule::Plus), number("1")];
    let got = from_expr(&tokens, &t);
    assert_eq!(got.unwrap_err().get_kind(), ErrorKind::Type);
}

#[test]
fn indexing_scales_by_four() {
    let t = table_with(&[(ptr(CType::Int), "p")]);
    let tokens =
        vec![ident("p"), node(Rule::ArrayExpr, vec![node(Rule::Expr, vec![number("1")])])];
    let sum = Node::BinaryOp {
        ctype: ptr(CType::Int),
        op: BinOp::Plus,
        lhs: Box::new(var(ptr(CType::Int), "p", 0)),
        rhs: Box::new(Node::BinaryOp {
            ctype: CType::Int,
            op: BinOp::Times,
            lhs: Box::new(lit(CType::Int, 1)),
            rhs: Box::new(lit(ptr(CType::Int), 4)),
        }),
    };
    let got = from_expr(&tokens, &t).unwrap();
    assert_eq!(got, Node::Dereference { ctype: CType::Int, expr: Box::new(sum) });
    let sum = Node::BinaryOp {
        ctype: ptr(CType::Int),
        op: BinOp::Plus,
        lhs: Box::new(var(ptr(CType::Int), "p", 0)),
        rhs: Box::new(Node::BinaryOp {
            ctype: CType::Int,
            op: BinOp::Times,
            lhs: Box::new(lit(CType::Int, 1)),
            rhs: Box::new(lit(ptr(CType::Int), 4)),
        }),
    };
    let got = from_lval(&tokens, &t).unwrap();
    assert_eq!(got, Node::Address { ctype: ptr(CType::Int), expr: Box::new(sum) });
}

#[test]
fn address_of_a_dereference_is_the_pointer() {
    let t = table_with(&[(ptr(CType::Int), "p"), (CType::Int, "x")]);
    let tokens = vec![op(Rule::Reference), op(Rule::Dereference), ident("p")];
    assert_eq!(from_expr(&tokens, &t).unwrap(), var(ptr(CType::Int), "p", 0));
    let tokens = vec![op(Rule::Reference), ident("x")];
    assert_eq!(
        from_expr(&tokens, &t).unwrap(),
        Node::Reference { ctype: ptr(CType::Int), expr: Box::new(var(CType::Int, "x", 0)) }
    );
}

#[test]
fn dereference_of_a_non_pointer_is_a_type_error() {
    let t = table_with(&[(CType::Int, "x")]);
    let tokens = vec![op(Rule::Dereference), ident("x")];
    assert_eq!(from_expr(&tokens, &t).unwrap_err().get_kind(), ErrorKind::Type);
}

#[test]
fn cast_to_a_pointer_is_a_type_error() {
    let t = table_with(&[(CType::Int, "x")]);
    let tokens = vec![ty(Rule::Int, 1), ident("x")];
    assert_eq!(from_expr(&tokens, &t).unwrap_err().get_kind(), ErrorKind::Type);
    let tokens = vec![ty(Rule::Float, 0), ident("x")];
    assert_eq!(
        from_expr(&tokens, &t).unwrap(),
        Node::Cast { ctype: CType::Float, expr: Box::new(var(CType::Int, "x", 0)) }
    );
}

#[test]
fn condition_of_int_and_float_retypes_both_to_float() {
    let t = table_with(&[(CType::Float, "f")]);
    let tokens = vec![
        node(Rule::Expr, vec![number("1")]),
        op(Rule::Less),
        node(Rule::Expr, vec![leaf(Rule::FloatLit, "2.5")]),
    ];
    let got = from_cond(&tokens, &t).unwrap();
    let expected = Node::ConditionalOp {
        ctype: CType::Float,
        op: CondOp::Less,
        lhs: Box::new(lit(CType::Float, 1)),
        rhs: Box::new(Node::FloatLit { ctype: CType::Float, val: "2.5".to_string() }),
    };
    assert_eq!(got, expected);
}

#[test]
fn condition_of_a_variable_and_a_float_cannot_be_retyped() {
    let t = table_with(&[(CType::Int, "x")]);
    let tokens = vec![
        node(Rule::Expr, vec![ident("x")]),
        op(Rule::Equal),
        node(Rule::Expr, vec![leaf(Rule::FloatLit, "2.5")]),
    ];
    assert_eq!(from_cond(&tokens, &t).unwrap_err().get_kind(), ErrorKind::Type);
}

#[test]
fn unknown_variable_is_a_symbol_table_error() {
    let t = table_with(&[]);
    let tokens = vec![ident("nowhere")];
    assert_eq!(from_expr(&tokens, &t).unwrap_err().get_kind(), ErrorKind::SymTable);
}

#[test]
fn malformed_token_runs_are_rejected() {
    let t = table_with(&[(CType::Int, "a")]);
    assert_eq!(from_expr(&vec![], &t).unwrap_err().get_kind(), ErrorKind::PairsNext);
    let tokens = vec![ident("a"), ident("a")];
    assert_eq!(from_expr(&tokens, &t).unwrap_err().get_kind(), ErrorKind::Other);
    let tokens = vec![op(Rule::Plus), ident("a")];
    assert_eq!(from_expr(&tokens, &t).unwrap_err().get_kind(), ErrorKind::Other);
    let tokens = vec![ident("a"), op(Rule::Plus)];
    assert_eq!(from_expr(&tokens, &t).unwrap_err().get_kind(), ErrorKind::PairsNext);
    let tokens = vec![number("99999999999")];
    assert_eq!(from_expr(&tokens, &t).unwrap_err().get_kind(), ErrorKind::Other);
}

#[test]
fn assignment_through_a_pointer_stores_what_it_points_to() {
    let t = table_with(&[(ptr(CType::Int), "p")]);
    let stmt = assign(vec![op(Rule::Address), ident("p")], vec![number("5")]);
    let got = from_statement(&stmt, &t).unwrap();
    let expected = Node::Assign {
        ctype: CType::Int,
        lhs: Box::new(Node::Address {
            ctype: ptr(CType::Int),
            expr: Box::new(var(ptr(CType::Int), "p", 0)),
        }),
        rhs: Box::new(lit(CType::Int, 5)),
    };
    assert_eq!(got, expected);
}

#[test]
fn malloc_is_retyped_to_the_pointer_it_is_assigned_to() {
    let t = table_with(&[(ptr(CType::Float), "p")]);
    let call = node(
        Rule::Call,
        vec![node(Rule::MallocStmt, vec![node(Rule::Expr, vec![number("8")])])],
    );
    let stmt = assign(vec![ident("p")], vec![call]);
    let got = from_statement(&stmt, &t).unwrap();
    let expected = Node::Assign {
        ctype: ptr(CType::Float),
        lhs: Box::new(var(ptr(CType::Float), "p", 0)),
        rhs: Box::new(Node::Malloc {
            ctype: ptr(CType::Float),
            expr: Box::new(lit(CType::Int, 8)),
        }),
    };
    assert_eq!(got, expected);
}

#[test]
fn free_of_a_non_pointer_is_a_type_error() {
    let t = table_with(&[(CType::Int, "x")]);
    let stmt = node(
        Rule::Call,
        vec![node(Rule::FreeStmt, vec![node(Rule::Expr, vec![ident("x")])])],
    );
    assert_eq!(from_statement(&stmt, &t).unwrap_err().get_kind(), ErrorKind::Type);
}

#[test]
fn type_error_exit_code() {
    // int f(int x) { return; }
    let f = function(
        ty(Rule::Int, 0),
        "f",
        vec![node(Rule::Other, vec![ty(Rule::Int, 0), ident("x")])],
        vec![node(Rule::Statements, vec![node(Rule::ReturnStmt, vec![])])],
    );
    let err = parse_program(&vec![f]).unwrap_err();
    assert_eq!(err.get_kind(), ErrorKind::Type);
    assert_eq!(err.exit_code(), 7);
    assert_eq!(err.message(), "TYPE ERROR");
}

#[test]
fn void_return_with_a_value_is_a_type_error() {
    let f = function(
        ty(Rule::Void, 0),
        "f",
        vec![],
        vec![node(
            Rule::Statements,
            vec![node(Rule::ReturnStmt, vec![node(Rule::Expr, vec![number("1")])])],
        )],
    );
    let err = parse_program(&vec![f]).unwrap_err();
    assert_eq!(err.exit_code(), 7);
}

#[test]
fn definition_must_match_its_declaration() {
    let decl = node(
        Rule::FuncDecl,
        vec![
            ty(Rule::Int, 0),
            ident("f"),
            node(Rule::Other, vec![node(Rule::Other, vec![ty(Rule::Int, 0)])]),
        ],
    );
    let body = vec![node(
        Rule::Statements,
        vec![node(Rule::ReturnStmt, vec![node(Rule::Expr, vec![number("1")])])],
    )];
    let wrong_return = function(
        ty(Rule::Float, 0),
        "f",
        vec![node(Rule::Other, vec![ty(Rule::Int, 0), ident("x")])],
        vec![node(
            Rule::Statements,
            vec![node(
                Rule::ReturnStmt,
                vec![node(Rule::Expr, vec![leaf(Rule::FloatLit, "1.0")])],
            )],
        )],
    );
    let err = parse_program(&vec![
        node(Rule::FuncDecl, vec![
            ty(Rule::Int, 0),
            ident("f"),
            node(Rule::Other, vec![node(Rule::Other, vec![ty(Rule::Int, 0)])]),
        ]),
        wrong_return,
    ])
    .unwrap_err();
    assert_eq!(err.get_kind(), ErrorKind::Type);
    let wrong_params = function(
        ty(Rule::Int, 0),
        "f",
        vec![node(Rule::Other, vec![ty(Rule::Float, 0), ident("x")])],
        body,
    );
    let err = parse_program(&vec![decl, wrong_params]).unwrap_err();
    assert_eq!(err.get_kind(), ErrorKind::Type);
}

#[test]
fn program_declares_globals_strings_arguments_and_locals() {
    let main = function(
        ty(Rule::Int, 0),
        "main",
        vec![
            node(Rule::Other, vec![ty(Rule::Int, 0), ident("x")]),
            node(Rule::Other, vec![ty(Rule::Float, 0), ident("y")]),
        ],
        vec![
            var_decl(Rule::Int, 0, "a"),
            var_decl(Rule::Int, 1, "b"),
            node(
                Rule::Statements,
                vec![node(Rule::ReturnStmt, vec![node(Rule::Expr, vec![ident("g")])])],
            ),
        ],
    );
    let items = vec![
        var_decl(Rule::Int, 0, "g"),
        var_decl(Rule::Float, 0, "h"),
        node(Rule::StrDecl, vec![ident("s"), leaf(Rule::Other, "\"hi\"")]),
        main,
    ];
    let (ast, mut table) = parse_program(&items).unwrap();
    let name = |s: &str| s.to_string();
    assert_eq!(table.get_symbol(&name("g")).unwrap().address(), 0x20000000);
    assert_eq!(table.get_symbol(&name("h")).unwrap().address(), 0x20000004);
    assert_eq!(table.get_symbol(&name("s")).unwrap().address(), 0x10000000);
    assert_eq!(table.get_symbol(&name("s")).unwrap().ctype(), CType::Str);
    let f = table.get_symbol(&name("main")).unwrap();
    assert_eq!(f.address(), 0);
    assert_eq!(f.scope(), 1);
    assert_eq!(f.arguments().unwrap(), vec![CType::Int, CType::Float]);
    assert_eq!(table.get_symbol_in_scope(&name("x"), 1).unwrap().address(), 12);
    assert_eq!(table.get_symbol_in_scope(&name("y"), 1).unwrap().address(), 16);
    assert_eq!(table.get_symbol_in_scope(&name("a"), 1).unwrap().address(), -4);
    assert_eq!(table.get_symbol_in_scope(&name("b"), 1).unwrap().address(), -8);
    assert_eq!(table.strings_in_asm(), "0x10000000 \"hi\"\n");
    table.switch_scope(1).unwrap();
    assert_eq!(table.get_scope(&name("g")).unwrap(), 0);
    assert_eq!(table.get_scope(&name("a")).unwrap(), 1);
    let expected = Node::StatementList {
        statements: vec![Node::Function {
            ident: name("main"),
            scope: 0,
            statements: Box::new(Node::StatementList {
                statements: vec![Node::Return {
                    ctype: CType::Int,
                    function: 0,
                    expr: Box::new(var(CType::Int, "g", 0)),
                }],
            }),
        }],
    };
    assert_eq!(ast, expected);
}

#[test]
fn call_arguments_are_retyped_and_counted() {
    let decl = |params: Vec<Pair>| {
        node(Rule::FuncDecl, vec![ty(Rule::Float, 0), ident("f"), node(Rule::Other, params)])
    };
    let (_, mut t) = parse_program(&vec![decl(vec![node(
        Rule::Other,
        vec![ty(Rule::Float, 0)],
    )])])
    .unwrap();
    t.switch_scope(0).unwrap();
    let call = |args: Vec<Pair>| {
        let mut inner = vec![ident("f")];
        inner.extend(args);
        vec![node(Rule::Call, vec![node(Rule::FuncCall, inner)])]
    };
    let got = from_expr(&call(vec![node(Rule::Expr, vec![number("3")])]), &t).unwrap();
    let expected = Node::Call {
        ctype: CType::Float,
        ident: "f".to_string(),
        scope: 0,
        arguments: vec![lit(CType::Float, 3)],
    };
    assert_eq!(got, expected);
    let none = from_expr(&call(vec![]), &t);
    assert_eq!(none.unwrap_err().get_kind(), ErrorKind::Type);
    let two = from_expr(
        &call(vec![node(Rule::Expr, vec![number("3")]), node(Rule::Expr, vec![number("4")])]),
        &t,
    );
    assert_eq!(two.unwrap_err().get_kind(), ErrorKind::Type);
}

#[test]
fn types_are_read_from_their_tokens() {
    let tokens = |ty_pair: Pair| ty_pair.inner;
    assert_eq!(CType::from_base_type(&tokens(ty(Rule::Int, 0))).unwrap(), CType::Int);
    assert_eq!(CType::from_base_type(&tokens(ty(Rule::Float, 0))).unwrap(), CType::Float);
    assert_eq!(CType::from_base_type(&tokens(ty(Rule::Void, 1))).unwrap(), ptr(CType::Void));
    assert_eq!(CType::from_base_type(&tokens(ty(Rule::Int, 2))).unwrap(), ptr(ptr(CType::Int)));
    assert_eq!(CType::from_base_type(&vec![]).unwrap_err().get_kind(), ErrorKind::PairsNext);
    assert_eq!(
        CType::from_base_type(&vec![op(Rule::Ptr)]).unwrap_err().get_kind(),
        ErrorKind::Other
    );
    assert_eq!(
        CType::from_base_type(&vec![op(Rule::Int), op(Rule::Int)]).unwrap_err().get_kind(),
        ErrorKind::Other
    );
}

#[test]
fn empty_program_has_an_empty_tree_and_table() {
    let (ast, table) = parse_program(&vec![]).unwrap();
    assert_eq!(ast, Node::StatementList { statements: vec![] });
    assert!(table.is_wf());
    assert_eq!(table.strings_in_asm(), "");
    assert_eq!(table.get_addr_offset_val(), (0x20000000, 0x10000000));
}

#[test]
fn items_that_are_no_declarations_are_rejected() {
    let err = parse_program(&vec![node(Rule::Statements, vec![])]).unwrap_err();
    assert_eq!(err.get_kind(), ErrorKind::Other);
    assert_eq!(err.exit_code(), 1);
    let err = parse_program(&vec![node(Rule::VarDecl, vec![])]).unwrap_err();
    assert_eq!(err.get_kind(), ErrorKind::PairsNext);
    assert_eq!(err.message(), "failed to get next sub pair");
    let err = parse_program(&vec![node(Rule::Function, vec![ty(Rule::Int, 0), ident("f")])])
        .unwrap_err();
    assert_eq!(err.get_kind(), ErrorKind::PairsNext);
    // a function without statements has an empty body
    let f = function(ty(Rule::Void, 0), "f", vec![], vec![]);
    let (ast, _) = parse_program(&vec![f]).unwrap();
    assert_eq!(
        ast,
        Node::StatementList {
            statements: vec![Node::Function {
                ident: "f".to_string(),
                scope: 0,
                statements: Box::new(Node::Empty),
            }],
        }
    );
    // a list of statements holds one at least
    let f = function(ty(Rule::Void, 0), "f", vec![], vec![node(Rule::Statements, vec![])]);
    assert_eq!(parse_program(&vec![f]).unwrap_err().get_kind(), ErrorKind::Other);
}

#[test]
fn read_takes_a_variable_and_has_its_type() {
    let t = table_with(&[(CType::Float, "f")]);
    let stmt = node(Rule::Call, vec![node(Rule::ReadStmt, vec![ident("f")])]);
    assert_eq!(
        from_statement(&stmt, &t).unwrap(),
        Node::Read { ctype: CType::Float, var: Box::new(var(CType::Float, "f", 0)) }
    );
    let stmt = node(Rule::Call, vec![node(Rule::ReadStmt, vec![ident("nowhere")])]);
    assert_eq!(from_statement(&stmt, &t).unwrap_err().get_kind(), ErrorKind::SymTable);
    let stmt = node(Rule::Call, vec![]);
    assert_eq!(from_statement(&stmt, &t).unwrap_err().get_kind(), ErrorKind::Other);
    let stmt = node(
        Rule::Call,
        vec![node(Rule::PrintStmt, vec![node(Rule::Expr, vec![ident("f")])])],
    );
    assert_eq!(
        from_statement(&stmt, &t).unwrap(),
        Node::Write { ctype: CType::Float, expr: Box::new(var(CType::Float, "f", 0)) }
    );
}

#[test]
fn retyping_follows_the_shape_of_the_node() {
    let p = ptr(CType::Int);
    assert_eq!(lit(CType::Int, 1).set_ctype(&CType::Int).unwrap(), lit(CType::Int, 1));
    assert_eq!(lit(CType::Int, 1).set_ctype(&CType::Float).unwrap(), lit(CType::Float, 1));
    assert_eq!(lit(CType::Int, 1).set_ctype(&p).unwrap(), lit(p.clone(), 1));
    assert_eq!(
        lit(CType::Int, 1).set_ctype(&CType::Str).unwrap_err().get_kind(),
        ErrorKind::Type
    );
    assert_eq!(lit(p.clone(), 1).set_ctype(&CType::Int).unwrap_err().get_kind(), ErrorKind::Type);
    let float = || Node::FloatLit { ctype: CType::Float, val: "1.5".to_string() };
    assert_eq!(float().set_ctype(&CType::Float).unwrap(), float());
    assert_eq!(float().set_ctype(&CType::Int).unwrap_err().get_kind(), ErrorKind::Type);
    assert_eq!(
        var(CType::Int, "x", 0).set_ctype(&CType::Float).unwrap_err().get_kind(),
        ErrorKind::Type
    );
    assert_eq!(var(CType::Int, "x", 0).set_ctype(&CType::Int).unwrap(), var(CType::Int, "x", 0));
    let sum = Node::BinaryOp {
        ctype: CType::Int,
        op: BinOp::Plus,
        lhs: Box::new(Node::UnaryOp { ctype: CType::Int, expr: Box::new(lit(CType::Int, 1)) }),
        rhs: Box::new(lit(CType::Int, 2)),
    };
    let retyped = Node::BinaryOp {
        ctype: CType::Float,
        op: BinOp::Plus,
        lhs: Box::new(Node::UnaryOp { ctype: CType::Float, expr: Box::new(lit(CType::Float, 1)) }),
        rhs: Box::new(lit(CType::Float, 2)),
    };
    assert_eq!(sum.set_ctype(&CType::Float).unwrap(), retyped);
    let malloc = Node::Malloc { ctype: ptr(CType::Void), expr: Box::new(lit(CType::Int, 4)) };
    assert_eq!(
        malloc.set_ctype(&p).unwrap(),
        Node::Malloc { ctype: p.clone(), expr: Box::new(lit(CType::Int, 4)) }
    );
    let target = Node::Address { ctype: ptr(p.clone()), expr: Box::new(var(ptr(p.clone()), "q", 0)) };
    assert_eq!(target.strip_ctype().unwrap(), p);
    assert_eq!(var(CType::Int, "x", 0).strip_ctype().unwrap(), CType::Int);
    assert_eq!(Node::Empty.ctype(), CType::Void);
    assert_eq!(
        lit(CType::Int, 1).cast(&CType::Float),
        Node::Cast { ctype: CType::Float, expr: Box::new(lit(CType::Int, 1)) }
    );
}
