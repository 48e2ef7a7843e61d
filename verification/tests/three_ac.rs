use std::collections::VecDeque;

use microc::ast::BinOp;
use microc::ast::CondOp;
use microc::ast::Node;
use microc::error::ErrorKind;
use microc::symtable::CType;
use microc::symtable::Entry;
use microc::symtable::SymTable;
use microc::symtable::SymbolType;
use microc::three_ac::operand::Type;
use microc::three_ac::operand::Variant as Kind;
use microc::three_ac::Bank;
use microc::three_ac::Count;
use microc::three_ac::Instruction;
use microc::three_ac::Instructions;
use microc::three_ac::Label;
use microc::three_ac::Operand;
use microc::three_ac::Variant;

fn name(s: &str) -> String {
    s.to_string()
}

fn temp(n: u32) -> Operand {
    Operand { variant: Kind::Temp(n), otype: Type::T }
}

fn temp_f(n: u32) -> Operand {
    Operand { variant: Kind::TempFloat(n), otype: Type::F }
}

fn local(offset: i32) -> Operand {
    Operand { variant: Kind::Local(offset), otype: Type::T }
}

fn global(address: i32) -> Operand {
    Operand { variant: Kind::Global(address), otype: Type::T }
}

fn null() -> Operand {
    Operand::new_null()
}

fn var(ctype: CType, ident: &str, scope: usize) -> Node {
    Node::Var { ctype, ident: name(ident), scope }
}

fn lit(val: i32) -> Node {
    Node::IntLit { ctype: CType::Int, val }
}

fn stream(list: Vec<Instruction>) -> Instructions {
    Instructions { instructions: VecDeque::from(list), tmp: None }
}

fn listed(i: Instructions) -> Vec<Instruction> {
    i.instructions.into_iter().collect()
}

fn plus(opdt: Operand, opm: Operand, opn: Operand) -> Instruction {
    Instruction { variant: Variant::Plus, set: Bank::T, opdt, opm, opn }
}

fn load(opdt: Operand, text: &str) -> Instruction {
    Instruction::load(Bank::T, opdt, name(text))
}

/// Globals `a` at 0x20000000 and `b` at 0x20000004, a function `main` with
/// locals `x` at -4 and `y` at -8; the table stands in the scope of `main`.
fn table() -> SymTable {
    let mut t = SymTable::new(0x20000000, 0x10000000);
    t.add_symbol(CType::Int, name("a"), SymbolType::Global).unwrap();
    t.add_symbol(CType::Int, name("b"), SymbolType::Global).unwrap();
    t.add_function(CType::Void, name("main"), vec![]).unwrap();
    t.push_scope(0, &name("main"), CType::Void).unwrap();
    t.add_symbol(CType::Int, name("x"), SymbolType::Local).unwrap();
    t.add_symbol(CType::Int, name("y"), SymbolType::Local).unwrap();
    t
}

fn lowered(node: &Node) -> (Vec<Instruction>, Option<Operand>, Count) {
    let mut count = Count { regular: 0, float: 0, label: 0 };
    let mut t = table();
    let r = Instructions::from_ast(node, &mut count, &mut t).unwrap();
    let tmp = r.tmp;
    (listed(r), tmp, count)
}

fn fails(node: &Node) -> ErrorKind {
    let mut count = Count { regular: 0, float: 0, label: 0 };
    let mut t = table();
    Instructions::from_ast(node, &mut count, &mut t).unwrap_err().get_kind()
}

#[test]
fn operands_of_symbols() {
    let of = |ctype: CType, symtype: SymbolType| {
        Operand::from_symbol(&ctype, Entry::Symbol { ctype: ctype.clone(), address: 16, symtype })
    };
    assert_eq!(of(CType::Int, SymbolType::Global).unwrap(), global(16));
    assert_eq!(of(CType::Int, SymbolType::Local).unwrap(), local(16));
    assert_eq!(of(CType::Int, SymbolType::Argument).unwrap(), local(16));
    assert_eq!(
        of(CType::Float, SymbolType::Local).unwrap(),
        Operand { variant: Kind::Local(16), otype: Type::F }
    );
    assert_eq!(
        of(CType::Str, SymbolType::Str(name("\"s\""))).unwrap(),
        Operand { variant: Kind::Str(16), otype: Type::T }
    );
    assert_eq!(of(CType::Void, SymbolType::Local).unwrap_err().get_kind(), ErrorKind::Type);
    let function = Entry::Function { ctype: CType::Int, address: 0, arguments: vec![], scope: 1 };
    assert_eq!(
        Operand::from_symbol(&CType::Int, function).unwrap_err().get_kind(),
        ErrorKind::ThreeAC
    );
    assert_eq!(Type::from_ctype(&CType::Float), Type::F);
    assert_eq!(Type::from_ctype(&CType::Ptr(Box::new(CType::Float))), Type::T);
    assert_eq!(CType::Float.to_instruction_set(), Bank::F);
    assert_eq!(CType::Str.to_instruction_set(), Bank::T);
    assert!(!null().is_spillable());
    assert!(temp(1).is_spillable());
    assert!(!temp(1).is_variable());
    assert!(local(-4).is_variable());
    assert!(global(0).is_variable());
}

#[test]
fn temporaries_count_up_in_two_banks() {
    let mut c = Count { regular: 0, float: 0, label: 3 };
    assert_eq!(Operand::new_tmp(&CType::Int, &mut c).unwrap(), Some(temp(1)));
    assert_eq!(Operand::new_tmp(&CType::Float, &mut c).unwrap(), Some(temp_f(1)));
    assert_eq!(Operand::new_tmp(&CType::Str, &mut c).unwrap(), Some(temp(2)));
    assert_eq!(Operand::new_tmp(&CType::Void, &mut c).unwrap(), None);
    assert_eq!(c, Count { regular: 2, float: 1, label: 3 });
    c.reset();
    assert_eq!(c, Count { regular: 0, float: 0, label: 3 });
    let mut c = Count { regular: u32::MAX, float: 0, label: 0 };
    assert_eq!(
        Operand::new_tmp(&CType::Int, &mut c).unwrap_err().get_kind(),
        ErrorKind::ThreeAC
    );
}

#[test]
fn frame_room_is_the_magnitude_of_the_offset() {
    assert_eq!(Instruction::alloc_frame(-8).variant, Variant::Alloc(8));
    assert_eq!(Instruction::alloc_frame(12).variant, Variant::Alloc(12));
    assert_eq!(Instruction::alloc_frame(i32::MIN).variant, Variant::Alloc(2147483648));
    assert_eq!(Instruction::put(Bank::T, temp(1), true).variant, Variant::PutS);
    assert_eq!(Instruction::put(Bank::T, temp(1), false).variant, Variant::Put);
    assert_eq!(Instruction::ret().clone(), Instruction::ret());
}

#[test]
fn assignment_through_a_pointer_lowers_to_a_store_to_memory() {
    // *x = 5, with x a local pointer
    let p = CType::Ptr(Box::new(CType::Int));
    let node = Node::Assign {
        ctype: CType::Int,
        lhs: Box::new(Node::Address {
            ctype: p.clone(),
            expr: Box::new(var(p, "x", 1)),
        }),
        rhs: Box::new(lit(5)),
    };
    let (code, tmp, count) = lowered(&node);
    assert_eq!(
        code,
        vec![load(temp(1), "5"), Instruction::addr_assign(Bank::T, local(-4), temp(1))]
    );
    assert_eq!(tmp, None);
    assert_eq!(count, Count { regular: 1, float: 0, label: 0 });
}

#[test]
fn sum_of_a_global_and_a_literal() {
    // x = a + 1
    let node = Node::Assign {
        ctype: CType::Int,
        lhs: Box::new(var(CType::Int, "x", 1)),
        rhs: Box::new(Node::BinaryOp {
            ctype: CType::Int,
            op: BinOp::Plus,
            lhs: Box::new(var(CType::Int, "a", 0)),
            rhs: Box::new(lit(1)),
        }),
    };
    let (code, _, _) = lowered(&node);
    let expected = vec![
        load(temp(1), "1"),
        plus(temp(2), global(0x20000000), temp(1)),
        Instruction::assign(Bank::T, local(-4), temp(2)),
    ];
    assert_eq!(code, expected);
    // the copy of the temporary is folded into the sum
    assert_eq!(
        listed(stream(expected).optimize()),
        vec![load(temp(1), "1"), plus(local(-4), global(0x20000000), temp(1))]
    );
}

#[test]
fn peephole_temp_copy_elimination() {
    let a = global(0x20000000);
    let b = global(0x20000004);
    let x = local(-4);
    let got = stream(vec![plus(temp(1), a, b), Instruction::assign(Bank::T, x, temp(1))]);
    assert_eq!(listed(got.optimize()), vec![plus(x, a, b)]);
    // a copy of a variable stays
    let kept = vec![plus(x, a, b), Instruction::assign(Bank::T, local(-8), x)];
    assert_eq!(listed(stream(kept.clone()).optimize()), kept);
    // a copy of another temporary stays
    let kept = vec![plus(temp(1), a, b), Instruction::assign(Bank::T, x, temp(2))];
    assert_eq!(listed(stream(kept.clone()).optimize()), kept);
    // copies of copies fold into the first write
    let chain = stream(vec![
        plus(temp(1), a, b),
        Instruction::assign(Bank::T, temp(2), temp(1)),
        Instruction::assign(Bank::T, x, temp(2)),
    ]);
    assert_eq!(listed(chain.optimize()), vec![plus(x, a, b)]);
}

#[test]
fn peephole_jump_to_next_label() {
    let got = stream(vec![
        Instruction::jump(Label::BlockJump(5)),
        Instruction::label(Label::BlockJump(5)),
    ]);
    assert_eq!(listed(got.optimize()), vec![Instruction::label(Label::BlockJump(5))]);
    let kept = vec![
        Instruction::jump(Label::BlockJump(5)),
        Instruction::label(Label::BlockBranch(5)),
    ];
    assert_eq!(listed(stream(kept.clone()).optimize()), kept);
    assert_eq!(listed(stream(vec![]).optimize()), vec![]);
}

#[test]
fn second_peephole_pass_changes_nothing_without_a_jump_left_before_its_label() {
    let a = global(0x20000000);
    let program = vec![
        Instruction::label(Label::FunctionHead(0)),
        load(temp(1), "1"),
        Instruction::assign(Bank::T, a, temp(1)),
        Instruction::jump(Label::FunctionTail(0)),
        Instruction::label(Label::FunctionTail(0)),
        Instruction::ret(),
    ];
    let once = listed(stream(program).optimize());
    assert_eq!(
        once,
        vec![
            Instruction::label(Label::FunctionHead(0)),
            load(a, "1"),
            Instruction::label(Label::FunctionTail(0)),
            Instruction::ret(),
        ]
    );
    assert_eq!(listed(stream(once.clone()).optimize()), once);
    // two jumps to the label that follows them: the first pass drops one,
    // the second the other
    let twice = vec![
        Instruction::jump(Label::FunctionTail(0)),
        Instruction::jump(Label::FunctionTail(0)),
        Instruction::label(Label::FunctionTail(0)),
    ];
    let once = listed(stream(twice).optimize());
    assert_eq!(
        once,
        vec![Instruction::jump(Label::FunctionTail(0)), Instruction::label(Label::FunctionTail(0))]
    );
    assert_eq!(
        listed(stream(once).optimize()),
        vec![Instruction::label(Label::FunctionTail(0))]
    );
}

#[test]
fn headers_go_around_the_program() {
    let got = stream(vec![Instruction::ret()]).add_headers(3, name("0x10000000 \"s\"\n"));
    assert_eq!(
        listed(got),
        vec![
            Instruction::header_text(Label::FunctionHead(3)),
            Instruction::ret(),
            Instruction::header_strings(name("0x10000000 \"s\"\n")),
        ]
    );
}

fn compare(op: CondOp, lhs: Node, rhs: Node) -> Node {
    Node::ConditionalOp { ctype: CType::Int, op, lhs: Box::new(lhs), rhs: Box::new(rhs) }
}

fn set(ident: &str, val: i32) -> Node {
    Node::StatementList {
        statements: vec![Node::Assign {
            ctype: CType::Int,
            lhs: Box::new(var(CType::Int, ident, 1)),
            rhs: Box::new(lit(val)),
        }],
    }
}

#[test]
fn branch_and_loop_labels_balance() {
    // if (x == 1) { y = 1; } else { while (y < 3) { y = 2; } }
    let node = Node::IfElse {
        cond: Box::new(compare(CondOp::Equal, var(CType::Int, "x", 1), lit(1))),
        lhs: Box::new(set("y", 1)),
        rhs: Box::new(Node::StatementList {
            statements: vec![Node::While {
                cond: Box::new(compare(CondOp::Less, var(CType::Int, "y", 1), lit(3))),
                statements: Box::new(set("y", 2)),
            }],
        }),
    };
    let (code, tmp, count) = lowered(&node);
    let branch = |variant: Variant, opm: Operand, opn: Operand| Instruction {
        variant,
        set: Bank::T,
        opdt: null(),
        opm,
        opn,
    };
    let expected = vec![
        load(temp(1), "1"),
        branch(Variant::Equal(Label::BlockBranch(1)), local(-4), temp(1)),
        load(temp(2), "1"),
        Instruction::assign(Bank::T, local(-8), temp(2)),
        Instruction::jump(Label::BlockJump(1)),
        Instruction::label(Label::BlockBranch(1)),
        Instruction::label(Label::BlockJump(2)),
        load(temp(3), "3"),
        branch(Variant::Less(Label::BlockBranch(2)), local(-8), temp(3)),
        load(temp(4), "2"),
        Instruction::assign(Bank::T, local(-8), temp(4)),
        Instruction::jump(Label::BlockJump(2)),
        Instruction::label(Label::BlockBranch(2)),
        Instruction::label(Label::BlockJump(1)),
    ];
    assert_eq!(code, expected);
    assert_eq!(tmp, None);
    assert_eq!(count, Count { regular: 4, float: 0, label: 2 });
    // every branch and jump goes to a label that is marked exactly once
    for i in &code {
        let target = match &i.variant {
            Variant::Equal(l) | Variant::Less(l) | Variant::Jump(l) => Some(*l),
            _ => None,
        };
        if let Some(l) = target {
            let marks = code.iter().filter(|j| j.variant == Variant::Label(l)).count();
            assert_eq!(marks, 1, "{l:?}");
        }
    }
    // each temporary from 1 to the last is written exactly once
    for n in 1..=count.regular {
        let writes = code
            .iter()
            .filter(|i| {
                matches!(i.variant, Variant::Load(_) | Variant::Plus | Variant::Assign)
                    && i.opdt == temp(n)
            })
            .count();
        assert_eq!(writes, 1, "t{n}");
    }
}

#[test]
fn float_comparison_takes_an_integer_scratch() {
    let node = Node::ConditionalOp {
        ctype: CType::Float,
        op: CondOp::GreaterEqual,
        lhs: Box::new(Node::FloatLit { ctype: CType::Float, val: name("1.5") }),
        rhs: Box::new(Node::IntLit { ctype: CType::Float, val: 2 }),
    };
    let mut count = Count { regular: 0, float: 0, label: 7 };
    let mut t = table();
    let got = Instructions::from_ast(&node, &mut count, &mut t).unwrap();
    assert_eq!(
        listed(got),
        vec![
            Instruction::load(Bank::F, temp_f(1), name("1.5")),
            Instruction::load(Bank::F, temp_f(2), name("2")),
            Instruction {
                variant: Variant::GreaterEqual(Label::BlockBranch(7)),
                set: Bank::F,
                opdt: temp(1),
                opm: temp_f(1),
                opn: temp_f(2),
            },
        ]
    );
    assert_eq!(count, Count { regular: 1, float: 2, label: 7 });
}

#[test]
fn function_is_framed_by_its_labels() {
    let body = Node::StatementList {
        statements: vec![
            Node::Read { ctype: CType::Int, var: Box::new(var(CType::Int, "x", 1)) },
            Node::Write { ctype: CType::Int, expr: Box::new(var(CType::Int, "x", 1)) },
            Node::Return { ctype: CType::Void, function: 0, expr: Box::new(Node::Empty) },
        ],
    };
    let node = Node::Function { ident: name("main"), scope: 0, statements: Box::new(body) };
    let mut count = Count { regular: 5, float: 6, label: 7 };
    let mut t = table();
    t.pop_scope().unwrap();
    let got = Instructions::from_ast(&node, &mut count, &mut t).unwrap();
    assert_eq!(
        listed(got),
        vec![
            Instruction::label(Label::FunctionHead(0)),
            Instruction::alloc_frame(-8),
            Instruction::get(Bank::T, local(-4)),
            Instruction::put(Bank::T, local(-4), false),
            Instruction::jump(Label::FunctionTail(0)),
            Instruction::label(Label::FunctionTail(0)),
            Instruction::ret(),
        ]
    );
    // the temporaries start anew, the labels go on
    assert_eq!(count, Count { regular: 0, float: 0, label: 7 });
    assert_eq!(t.get_addr_offset_val(), (0x20000008, 0x10000000));
}

#[test]
fn call_lowers_its_arguments_in_order() {
    let mut t = table();
    t.pop_scope().unwrap();
    t.add_function(CType::Float, name("f"), vec![CType::Int, CType::Int]).unwrap();
    t.add_function(CType::Void, name("g"), vec![]).unwrap();
    let call = Node::Call {
        ctype: CType::Float,
        ident: name("f"),
        scope: 0,
        arguments: vec![lit(1), var(CType::Int, "a", 0)],
    };
    let mut count = Count { regular: 0, float: 0, label: 0 };
    let got = Instructions::from_ast(&call, &mut count, &mut t).unwrap();
    assert_eq!(got.tmp, Some(temp_f(1)));
    assert_eq!(
        listed(got),
        vec![
            load(temp(1), "1"),
            Instruction::call(
                Label::FunctionHead(1),
                vec![temp(1), global(0x20000000)],
                Bank::F,
                temp_f(1)
            ),
        ]
    );
    let call = Node::Call { ctype: CType::Void, ident: name("g"), scope: 0, arguments: vec![] };
    let got = Instructions::from_ast(&call, &mut count, &mut t).unwrap();
    assert_eq!(got.tmp, None);
    assert_eq!(
        listed(got),
        vec![Instruction::call(Label::FunctionHead(2), vec![], Bank::T, null())]
    );
    let unknown = Node::Call { ctype: CType::Int, ident: name("h"), scope: 0, arguments: vec![] };
    assert_eq!(
        Instructions::from_ast(&unknown, &mut count, &mut t).unwrap_err().get_kind(),
        ErrorKind::SymTable
    );
}

#[test]
fn lowering_errors() {
    // a value without a type
    let void = Node::UnaryOp { ctype: CType::Void, expr: Box::new(lit(1)) };
    assert_eq!(fails(&void), ErrorKind::Type);
    assert_eq!(fails(&var(CType::Void, "x", 1)), ErrorKind::Type);
    // an operand where a statement is due
    assert_eq!(fails(&Node::StatementList { statements: vec![lit(1)] }), ErrorKind::ThreeAC);
    // no operand where one is due
    let free = Node::Free { expr: Box::new(Node::Empty) };
    assert_eq!(fails(&free), ErrorKind::ThreeAC);
    // a read target with instructions
    let read = Node::Read { ctype: CType::Int, var: Box::new(lit(1)) };
    assert_eq!(fails(&read), ErrorKind::ThreeAC);
    // an unknown variable, and a function where a variable is due
    assert_eq!(fails(&var(CType::Int, "nowhere", 1)), ErrorKind::SymTable);
    assert_eq!(fails(&var(CType::Int, "main", 0)), ErrorKind::ThreeAC);
    // a condition that is no comparison
    let branch = Node::IfElse {
        cond: Box::new(lit(1)),
        lhs: Box::new(Node::Empty),
        rhs: Box::new(Node::Empty),
    };
    assert_eq!(fails(&branch), ErrorKind::ThreeAC);
    // a function that the table does not know
    let f = Node::Function {
        ident: name("nowhere"),
        scope: 0,
        statements: Box::new(Node::Empty),
    };
    assert_eq!(fails(&f), ErrorKind::SymTable);
}

#[test]
fn other_nodes_lower_one_to_one() {
    let x = || var(CType::Int, "x", 1);
    let p = CType::Ptr(Box::new(CType::Int));
    let check = |node: Node, expected: Vec<Instruction>, tmp: Option<Operand>| {
        let (code, got, _) = lowered(&node);
        assert_eq!(code, expected);
        assert_eq!(got, tmp);
    };
    check(
        Node::UnaryOp { ctype: CType::Int, expr: Box::new(x()) },
        vec![Instruction::negate(Bank::T, temp(1), local(-4))],
        Some(temp(1)),
    );
    check(
        Node::Cast { ctype: CType::Float, expr: Box::new(x()) },
        vec![Instruction::cast(Bank::F, temp_f(1), local(-4))],
        Some(temp_f(1)),
    );
    check(
        Node::Dereference { ctype: CType::Int, expr: Box::new(var(p.clone(), "y", 1)) },
        vec![Instruction::dereference(Bank::T, temp(1), local(-8))],
        Some(temp(1)),
    );
    check(
        Node::Reference { ctype: p.clone(), expr: Box::new(x()) },
        vec![Instruction::reference(temp(1), local(-4))],
        Some(temp(1)),
    );
    check(
        Node::Address { ctype: CType::Float, expr: Box::new(x()) },
        vec![Instruction::address(temp(1), local(-4))],
        Some(temp(1)),
    );
    check(
        Node::Malloc { ctype: p.clone(), expr: Box::new(lit(8)) },
        vec![load(temp(1), "8"), Instruction::malloc(temp(2), temp(1))],
        Some(temp(2)),
    );
    check(
        Node::Free { expr: Box::new(var(p, "y", 1)) },
        vec![Instruction::free(local(-8))],
        None,
    );
    check(
        Node::Return { ctype: CType::Int, function: 4, expr: Box::new(x()) },
        vec![
            Instruction::save(Bank::T, local(-4)),
            Instruction::jump(Label::FunctionTail(4)),
        ],
        None,
    );
    check(
        Node::IntLit { ctype: CType::Float, val: -3 },
        vec![Instruction::load(Bank::F, temp_f(1), name("-3"))],
        Some(temp_f(1)),
    );
    check(Node::Empty, vec![], None);
}

#[test]
fn listing_of_three_address_code() {
    assert_eq!(global(0x20000000).to_text(), "$G<0x20000000>");
    assert_eq!(Operand { variant: Kind::Str(0x10000004), otype: Type::T }.to_text(), "S<0x10000004>");
    assert_eq!(local(-4).to_text(), "L<-4>");
    assert_eq!(temp(1).to_text(), "$T<1>");
    assert_eq!(temp_f(2).to_text(), "$TF<2>");
    assert_eq!(null().to_text(), "");
    let a = global(0x20000000);
    let x = local(-4);
    let l = Label::BlockBranch(1);
    let compare = |variant: Variant| Instruction {
        variant,
        set: Bank::T,
        opdt: null(),
        opm: x,
        opn: temp(1),
    };
    let arith = |variant: Variant| Instruction {
        variant,
        set: Bank::T,
        opdt: temp(2),
        opm: a,
        opn: temp(1),
    };
    let lines = vec![
        (Instruction::header_text(Label::FunctionHead(0)), "HEADER TEXT | JR func_0\n"),
        (Instruction::header_strings(name("0x10000000 \"s\"\n")), "HEADER STRINGS\n0x10000000 \"s\"\n"),
        (Instruction::addr_assign(Bank::T, x, temp(1)), "L<-4> <= $T<1>\n"),
        (Instruction::assign(Bank::T, x, temp(1)), "L<-4> = $T<1>\n"),
        (Instruction::free(x), "FREE L<-4>\n"),
        (Instruction::get(Bank::T, x), "GET L<-4>\n"),
        (Instruction::malloc(temp(2), temp(1)), "$T<2> = MALLOC $T<1>\n"),
        (Instruction::put(Bank::T, x, false), "PUT L<-4>\n"),
        (Instruction::put(Bank::T, x, true), "PUT L<-4>\n"),
        (Instruction::ret(), "RET\n"),
        (Instruction::save(Bank::T, x), "Save L<-4>\n"),
        (load(temp(1), "5"), "$T<1> := 5\n"),
        (Instruction::address(temp(1), x), "$T<1> = %[L<-4>]\n"),
        (Instruction::dereference(Bank::T, temp(1), x), "$T<1> = *[L<-4>]\n"),
        (Instruction::reference(temp(1), x), "$T<1> = &[L<-4>]\n"),
        (arith(Variant::Plus), "$T<2> = $G<0x20000000> + $T<1>\n"),
        (arith(Variant::Minus), "$T<2> = $G<0x20000000> - $T<1>\n"),
        (arith(Variant::Times), "$T<2> = $G<0x20000000> * $T<1>\n"),
        (arith(Variant::Divide), "$T<2> = $G<0x20000000> / $T<1>\n"),
        (Instruction::negate(Bank::T, temp(1), x), "$T<1> = NEG L<-4>\n"),
        (Instruction::cast(Bank::F, temp_f(1), x), "$TF<1> = CAST L<-4>\n"),
        (compare(Variant::Equal(l)), "L<-4> == $T<1> ? else J branch_1\n"),
        (compare(Variant::NotEqual(l)), "L<-4> != $T<1> ? else J branch_1\n"),
        (compare(Variant::Less(l)), "L<-4> < $T<1> ? else J branch_1\n"),
        (compare(Variant::LessEqual(l)), "L<-4> <= $T<1> ? else J branch_1\n"),
        (compare(Variant::Greater(l)), "L<-4> > $T<1> ? else J branch_1\n"),
        (compare(Variant::GreaterEqual(l)), "L<-4> >= $T<1> ? else J branch_1\n"),
        (Instruction::label(Label::FunctionTail(3)), "func_tail_3:\n"),
        (Instruction::jump(Label::BlockJump(2)), "J jump_2\n"),
        (
            Instruction::call(Label::FunctionHead(1), vec![temp(1), a], Bank::F, temp_f(1)),
            "$TF<1> = func_1($T<1>, $G<0x20000000>)\n",
        ),
        (Instruction::call(Label::FunctionHead(2), vec![], Bank::T, null()), "func_2()\n"),
        (Instruction::call(Label::FunctionHead(2), vec![x], Bank::T, null()), "func_2(L<-4>)\n"),
        (Instruction::alloc_frame(-8), "ALLOC 8\n"),
        (Instruction::spill_registers(), "SPILL REGISTERS\n"),
    ];
    let mut all = String::new();
    let mut list = Vec::new();
    for (i, text) in lines {
        assert_eq!(i.to_text(), text);
        all.push_str(text);
        list.push(i);
    }
    assert_eq!(stream(list).to_text(), all);
}

#[test]
fn each_function_label_is_marked_once() {
    let mut t = SymTable::new(0x20000000, 0x10000000);
    t.add_function(CType::Void, name("f"), vec![]).unwrap();
    t.add_function(CType::Void, name("main"), vec![]).unwrap();
    t.push_scope(0, &name("f"), CType::Void).unwrap();
    t.pop_scope().unwrap();
    t.push_scope(1, &name("main"), CType::Void).unwrap();
    t.pop_scope().unwrap();
    let call = Node::Call { ctype: CType::Void, ident: name("f"), scope: 0, arguments: vec![] };
    let program = Node::StatementList {
        statements: vec![
            Node::Function {
                ident: name("f"),
                scope: 0,
                statements: Box::new(Node::StatementList {
                    statements: vec![Node::Return {
                        ctype: CType::Void,
                        function: 0,
                        expr: Box::new(Node::Empty),
                    }],
                }),
            },
            Node::Function {
                ident: name("main"),
                scope: 0,
                statements: Box::new(Node::StatementList { statements: vec![call] }),
            },
        ],
    };
    let mut count = Count { regular: 0, float: 0, label: 0 };
    let code = listed(Instructions::from_ast(&program, &mut count, &mut t).unwrap());
    let marks = |l: Label| code.iter().filter(|i| i.variant == Variant::Label(l)).count();
    for id in 0..2 {
        assert_eq!(marks(Label::FunctionHead(id)), 1);
        assert_eq!(marks(Label::FunctionTail(id)), 1);
    }
    assert_eq!(marks(Label::FunctionHead(2)), 0);
    for i in &code {
        if let Variant::Call(l, _) = &i.variant {
            assert_eq!(marks(*l), 1);
        }
    }
    assert_eq!(code.len(), 8);
}
