use microc::gencode::generate_code;
use microc::parser::parse_program;
use microc::parser::Pair;
use microc::parser::Rule;

fn leaf(rule: Rule, text: &str) -> Pair {
    Pair::leaf(rule, text)
}

fn node(rule: Rule, inner: Vec<Pair>) -> Pair {
    Pair::node(rule, "", inner)
}

fn ident(name: &str) -> Pair {
    leaf(Rule::Ident, name)
}

fn number(text: &str) -> Pair {
    leaf(Rule::IntLit, text)
}

fn op(rule: Rule) -> Pair {
    leaf(rule, "")
}

fn ty(base: Rule, pointers: usize) -> Pair {
    let mut inner = vec![op(base)];
    for _ in 0..pointers {
        inner.push(op(Rule::Ptr));
    }
    node(Rule::BaseType, inner)
}

fn var_decl(base: Rule, pointers: usize, name: &str) -> Pair {
    node(Rule::VarDecl, vec![ty(base, pointers), ident(name)])
}

fn function(ret: Pair, name: &str, params: Vec<Pair>, members: Vec<Pair>) -> Pair {
    let mut inner = vec![ret, ident(name), node(Rule::Params, params)];
    inner.extend(members);
    node(Rule::Function, inner)
}

fn assign(lval: Vec<Pair>, expr: Vec<Pair>) -> Pair {
    node(Rule::AssignStmt, vec![node(Rule::Lval, lval), node(Rule::Expr, expr)])
}

fn statements(list: Vec<Pair>) -> Pair {
    node(Rule::Statements, list)
}

fn compile(items: Vec<Pair>, registers: u32) -> String {
    let (ast, table) = parse_program(&items).unwrap();
    generate_code(ast, table, registers).unwrap()
}

const HEAD: &str = ".section .text\nMV fp, sp\nJR func_0\nHALT\n";
const ENTER: &str = "func_0:\nADDI sp, sp, -4\nSW fp, 0(sp)\nMV fp, sp\n";
const LEAVE: &str = "func_tail_0:\nMV sp, fp\nLW fp, 0(fp)\nADDI sp, sp, 4\nRET\n";
const STRINGS: &str = ".section .strings\n";

#[test]
fn assignment_through_a_pointer() {
    // int *p; void main() { *p = 5; }
    let items = vec![
        var_decl(Rule::Int, 1, "p"),
        function(
            ty(Rule::Void, 0),
            "main",
            vec![],
            vec![statements(vec![assign(
                vec![op(Rule::Address), ident("p")],
                vec![number("5")],
            )])],
        ),
    ];
    let body = "LI x4, 5\nLA x3, 0x20000000\nLW x5, 0(x3)\nSW x4, 0(x5)\n";
    assert_eq!(compile(items, 8), format!("{HEAD}{ENTER}{body}{LEAVE}{STRINGS}"));
}

#[test]
fn int_is_converted_before_the_float_sum() {
    // int a; float b; void main() { b = a + 1.5; }
    let items = vec![
        var_decl(Rule::Int, 0, "a"),
        var_decl(Rule::Float, 0, "b"),
        function(
            ty(Rule::Void, 0),
            "main",
            vec![],
            vec![statements(vec![assign(
                vec![ident("b")],
                vec![ident("a"), op(Rule::Plus), leaf(Rule::FloatLit, "1.5")],
            )])],
        ),
    ];
    let body = "LA x3, 0x20000000\nLW x4, 0(x3)\nFMOVI.S f1, x4\nFIMM.S f2, 1.5\n\
                FADD.S f1, f1, f2\nLA x3, 0x20000004\nFSW f1, 0(x3)\n";
    let out = compile(items, 8);
    assert_eq!(out, format!("{HEAD}{ENTER}{body}{LEAVE}{STRINGS}"));
    assert!(out.find("FMOVI.S").unwrap() < out.find("FADD.S").unwrap());
}

#[test]
fn int_sum_is_converted_when_stored_to_a_float() {
    // int a; float b; void main() { b = a + 1; }
    let items = vec![
        var_decl(Rule::Int, 0, "a"),
        var_decl(Rule::Float, 0, "b"),
        function(
            ty(Rule::Void, 0),
            "main",
            vec![],
            vec![statements(vec![assign(
                vec![ident("b")],
                vec![ident("a"), op(Rule::Plus), number("1")],
            )])],
        ),
    ];
    let body = "LI x4, 1\nLA x3, 0x20000000\nLW x5, 0(x3)\nADD x4, x5, x4\n\
                FMOVI.S f1, x4\nLA x3, 0x20000004\nFSW f1, 0(x3)\n";
    assert_eq!(compile(items, 8), format!("{HEAD}{ENTER}{body}{LEAVE}{STRINGS}"));
}

#[test]
fn if_else_label_balance() {
    // int x; int a; void main() { if (x == 1) { a = 1; } else { a = 2; } }
    let cond = node(
        Rule::Other,
        vec![
            node(Rule::Expr, vec![ident("x")]),
            op(Rule::Equal),
            node(Rule::Expr, vec![number("1")]),
        ],
    );
    let branch = |value: &str| statements(vec![assign(vec![ident("a")], vec![number(value)])]);
    let items = vec![
        var_decl(Rule::Int, 0, "x"),
        var_decl(Rule::Int, 0, "a"),
        function(
            ty(Rule::Void, 0),
            "main",
            vec![],
            vec![statements(vec![node(Rule::IfStmt, vec![cond, branch("1"), branch("2")])])],
        ),
    ];
    let body = "LI x4, 1\nLA x3, 0x20000000\nLW x5, 0(x3)\nBNE x5, x4, branch_1\n\
                LI x4, 1\nLA x3, 0x20000004\nSW x4, 0(x3)\nJ jump_1\n\
                branch_1:\nLI x4, 2\nLA x3, 0x20000004\nSW x4, 0(x3)\njump_1:\n";
    assert_eq!(compile(items, 8), format!("{HEAD}{ENTER}{body}{LEAVE}{STRINGS}"));
}

#[test]
fn while_loop_jumps_back_to_its_head() {
    // int x; void main() { while (x < 3) { x = x + 1; } }
    let cond = node(
        Rule::Other,
        vec![
            node(Rule::Expr, vec![ident("x")]),
            op(Rule::Less),
            node(Rule::Expr, vec![number("3")]),
        ],
    );
    let body =
        statements(vec![assign(vec![ident("x")], vec![ident("x"), op(Rule::Plus), number("1")])]);
    let items = vec![
        var_decl(Rule::Int, 0, "x"),
        function(
            ty(Rule::Void, 0),
            "main",
            vec![],
            vec![statements(vec![node(Rule::WhileStmt, vec![cond, body])])],
        ),
    ];
    let text = "jump_1:\nLI x4, 3\nLA x3, 0x20000000\nLW x5, 0(x3)\nBGE x5, x4, branch_1\n\
                LI x4, 1\nLA x3, 0x20000000\nLW x5, 0(x3)\nADD x5, x5, x4\n\
                LA x3, 0x20000000\nSW x5, 0(x3)\nJ jump_1\nbranch_1:\n";
    assert_eq!(compile(items, 8), format!("{HEAD}{ENTER}{text}{LEAVE}{STRINGS}"));
}

#[test]
fn call_passes_arguments_above_the_return_slot() {
    // int f(int x) { return x; } void main() { print(f(3)); }
    let f = function(
        ty(Rule::Int, 0),
        "f",
        vec![node(Rule::Other, vec![ty(Rule::Int, 0), ident("x")])],
        vec![statements(vec![node(
            Rule::ReturnStmt,
            vec![node(Rule::Expr, vec![ident("x")])],
        )])],
    );
    let call = node(
        Rule::Call,
        vec![node(Rule::FuncCall, vec![ident("f"), node(Rule::Expr, vec![number("3")])])],
    );
    let print = node(Rule::Call, vec![node(Rule::PrintStmt, vec![node(Rule::Expr, vec![call])])]);
    let main = function(ty(Rule::Void, 0), "main", vec![], vec![statements(vec![print])]);
    let expected = "\
.section .text
MV fp, sp
JR func_1
HALT
func_0:
ADDI sp, sp, -4
SW fp, 0(sp)
MV fp, sp
LW x4, 12(fp)
SW x4, 8(fp)
func_tail_0:
MV sp, fp
LW fp, 0(fp)
ADDI sp, sp, 4
RET
func_1:
ADDI sp, sp, -4
SW fp, 0(sp)
MV fp, sp
LI x4, 3
ADDI sp, sp, -12
SW ra, 0(sp)
SW x4, 8(sp)
JR func_0
LW ra, 0(sp)
LW x4, 4(sp)
ADDI sp, sp, 12
PUTI x4
func_tail_1:
MV sp, fp
LW fp, 0(fp)
ADDI sp, sp, 4
RET
.section .strings
";
    assert_eq!(compile(vec![f, main], 8), expected);
}

#[test]
fn strings_are_listed_and_printed_through_x3() {
    // string s = "hi"; void main() { print(s); }
    let print = node(
        Rule::Call,
        vec![node(Rule::PrintStmt, vec![node(Rule::Expr, vec![ident("s")])])],
    );
    let items = vec![
        node(Rule::StrDecl, vec![ident("s"), leaf(Rule::Other, "\"hi\"")]),
        function(ty(Rule::Void, 0), "main", vec![], vec![statements(vec![print])]),
    ];
    let body = "LA x3, 0x10000000\nPUTS x3\n";
    assert_eq!(
        compile(items, 8),
        format!("{HEAD}{ENTER}{body}{LEAVE}{STRINGS}0x10000000 \"hi\"\n")
    );
}

#[test]
fn locals_get_room_and_are_spilled_before_their_register_is_reused() {
    // void main() { int a0; ...; int a9; a0 = 0; ...; a9 = 9; }
    let mut members = Vec::new();
    let mut list = Vec::new();
    for k in 0..10 {
        let name = format!("a{k}");
        members.push(var_decl(Rule::Int, 0, &name));
        list.push(assign(vec![ident(&name)], vec![number(&k.to_string())]));
    }
    members.push(statements(list));
    let items = vec![function(ty(Rule::Void, 0), "main", vec![], members)];
    let out = compile(items, 8);
    let mut body = String::from("ADDI sp, sp, -40\n");
    // the first write takes x4, the second x5; from then on each write takes
    // the register that the write before the last left
    body.push_str("LI x4, 0\n");
    for k in 1..10 {
        let (new, old) = if k % 2 == 1 { (5, 4) } else { (4, 5) };
        body.push_str(&format!("LI x{new}, {k}\nSW x{old}, {}(fp)\n", -4 * k));
    }
    body.push_str("SW x5, -40(fp)\n");
    assert_eq!(out, format!("{HEAD}{ENTER}{body}{LEAVE}{STRINGS}"));
}

#[test]
fn too_few_registers_is_an_allocator_error() {
    let items = vec![function(
        ty(Rule::Void, 0),
        "main",
        vec![],
        vec![statements(vec![node(Rule::ReturnStmt, vec![])])],
    )];
    let (ast, table) = parse_program(&items).unwrap();
    let err = generate_code(ast, table, 7).unwrap_err();
    assert_eq!(err.get_kind(), microc::error::ErrorKind::RegAlloc);
    assert_eq!(err.exit_code(), 1);
}

#[test]
fn program_without_main_is_a_symbol_table_error() {
    let items = vec![function(
        ty(Rule::Void, 0),
        "f",
        vec![],
        vec![statements(vec![node(Rule::ReturnStmt, vec![])])],
    )];
    let (ast, table) = parse_program(&items).unwrap();
    let err = generate_code(ast, table, 8).unwrap_err();
    assert_eq!(err.get_kind(), microc::error::ErrorKind::SymTable);
}

#[test]
fn return_jumps_to_the_tail_and_the_jump_before_the_tail_is_dropped() {
    // void main() { return; }
    let items = vec![function(
        ty(Rule::Void, 0),
        "main",
        vec![],
        vec![statements(vec![node(Rule::ReturnStmt, vec![])])],
    )];
    assert_eq!(compile(items, 8), format!("{HEAD}{ENTER}{LEAVE}{STRINGS}"));
}
