use microc::ast::climbers::from_expr;
use microc::ast::BinOp;
use microc::ast::Node;
use microc::parser::Pair;
use microc::parser::Rule;
use microc::symtable::CType;
use microc::symtable::SymTable;
use microc::symtable::SymbolType;
use pest::iterators::Pairs;
use pest::pratt_parser::Assoc;
use pest::pratt_parser::Op;
use pest::pratt_parser::PrattParser;
use pest::ParseResult;
use pest::ParserState;

type State<'i> = Box<ParserState<'i, Rule>>;

fn one<'i>(s: State<'i>, rule: Rule, text: &'static str) -> ParseResult<State<'i>> {
    s.rule(rule, |s| s.match_string(text))
}

fn prefix<'i>(s: State<'i>) -> ParseResult<State<'i>> {
    one(s, Rule::Neg, "n").or_else(|s| one(s, Rule::Dereference, "d"))
}

fn infix<'i>(s: State<'i>) -> ParseResult<State<'i>> {
    one(s, Rule::Plus, "+")
        .or_else(|s| one(s, Rule::Minus, "-"))
        .or_else(|s| one(s, Rule::Times, "*"))
        .or_else(|s| one(s, Rule::Divide, "/"))
}

fn primary<'i>(s: State<'i>) -> ParseResult<State<'i>> {
    s.rule(Rule::Ident, |s| s.match_char_by(|c| matches!(c, 'a' | 'b' | 'c' | 'p' | 'q')))
        .or_else(|s| s.rule(Rule::IntLit, |s| s.match_char_by(|c| c.is_ascii_digit())))
        .or_else(|s| {
            s.sequence(|s| s.match_string("(").and_then(expr).and_then(|s| s.match_string(")")))
        })
}

fn postfix<'i>(s: State<'i>) -> ParseResult<State<'i>> {
    s.rule(Rule::ArrayExpr, |s| {
        s.sequence(|s| s.match_string("[").and_then(expr).and_then(|s| s.match_string("]")))
    })
}

fn operand<'i>(s: State<'i>) -> ParseResult<State<'i>> {
    s.sequence(|s| s.repeat(prefix).and_then(primary).and_then(|s| s.repeat(postfix)))
}

fn expr<'i>(s: State<'i>) -> ParseResult<State<'i>> {
    s.rule(Rule::Expr, |s| {
        s.sequence(|s| {
            operand(s).and_then(|s| s.repeat(|s| s.sequence(|s| infix(s).and_then(operand))))
        })
    })
}

/// The tokens of an expression, as the parser crate hands them out.
fn tokens(input: &str) -> Pairs<'_, Rule> {
    let mut pairs = pest::state(input, |s| expr(s).and_then(|s| s.end_of_input())).unwrap();
    pairs.next().unwrap().into_inner()
}

/// The grouping that the climber of the parser crate gives the tokens.
fn reference(pairs: Pairs<'_, Rule>, pratt: &PrattParser<Rule>) -> String {
    pratt
        .map_primary(|p| match p.as_rule() {
            Rule::Expr => reference(p.into_inner(), pratt),
            _ => p.as_str().to_string(),
        })
        .map_prefix(|op, rhs| match op.as_rule() {
            Rule::Neg => format!("(neg {rhs})"),
            _ => format!("(deref {rhs})"),
        })
        .map_postfix(|lhs, op| {
            let index = reference(op.into_inner().next().unwrap().into_inner(), pratt);
            format!("(index {lhs} {index})")
        })
        .map_infix(|lhs, op, rhs| format!("({lhs} {} {rhs})", op.as_str()))
        .parse(pairs)
}

fn convert(pair: pest::iterators::Pair<'_, Rule>) -> Pair {
    let rule = pair.as_rule();
    let text = pair.as_str().to_string();
    Pair { rule, text, inner: pair.into_inner().map(convert).collect() }
}

/// The grouping of a tree of this library, written the same way.
fn shown(node: &Node) -> String {
    match node {
        Node::Var { ident, .. } => ident.clone(),
        Node::IntLit { val, .. } => val.to_string(),
        Node::UnaryOp { expr, .. } => format!("(neg {})", shown(expr)),
        Node::Dereference { expr, .. } => match &**expr {
            Node::BinaryOp { op: BinOp::Plus, lhs, rhs, .. } => match &**rhs {
                Node::BinaryOp { op: BinOp::Times, lhs: index, rhs: four, .. }
                    if matches!(&**four, Node::IntLit { val: 4, ctype: CType::Ptr(_) }) =>
                {
                    format!("(index {} {})", shown(lhs), shown(index))
                }
                _ => format!("(deref {})", shown(expr)),
            },
            _ => format!("(deref {})", shown(expr)),
        },
        Node::BinaryOp { op, lhs, rhs, .. } => {
            let sign = match op {
                BinOp::Plus => "+",
                BinOp::Minus => "-",
                BinOp::Times => "*",
                BinOp::Divide => "/",
            };
            format!("({} {sign} {})", shown(lhs), shown(rhs))
        }
        other => panic!("{other:?}"),
    }
}

fn table() -> SymTable {
    let mut t = SymTable::new(0x20000000, 0x10000000);
    let ptr = |t: CType| CType::Ptr(Box::new(t));
    for (name, ctype) in [
        ("a", CType::Int),
        ("b", CType::Int),
        ("c", CType::Int),
        ("p", ptr(CType::Int)),
        ("q", ptr(ptr(CType::Int))),
    ] {
        t.add_symbol(ctype, name.to_string(), SymbolType::Global).unwrap();
    }
    t
}

#[test]
fn groups_operators_as_the_parser_crate_does() {
    let pratt = PrattParser::new()
        .op(Op::infix(Rule::Plus, Assoc::Left) | Op::infix(Rule::Minus, Assoc::Left))
        .op(Op::infix(Rule::Times, Assoc::Left) | Op::infix(Rule::Divide, Assoc::Left))
        .op(Op::prefix(Rule::Neg) | Op::prefix(Rule::Dereference))
        .op(Op::postfix(Rule::ArrayExpr));
    let t = table();
    let inputs = [
        "a",
        "7",
        "a+b",
        "a+b*c",
        "a*b+c",
        "a-b-c",
        "a-b+c-a",
        "a/b/c*a",
        "a+b*c-a/b",
        "na",
        "nna",
        "na*b",
        "na+b",
        "a*nb",
        "a-nb*c",
        "n(a+b)*c",
        "(a+b)*(b-c)",
        "((a))",
        "p[a]",
        "p[a]*b",
        "np[a]",
        "np[a+b*c]*c",
        "p[p[a]]",
        "p[a]+p[b]*p[c]",
        "dp",
        "dp+a",
        "a*dp",
        "ndp",
        "dnp",
        "dq[a]",
        "ddq",
        "q[a][b]",
        "a+(b-c)*dp/p[1]",
    ];
    for input in inputs {
        let expected = reference(tokens(input), &pratt);
        let list: Vec<Pair> = tokens(input).map(convert).collect();
        let got = from_expr(&list, &t).unwrap();
        assert_eq!(shown(&got), expected, "{input}");
    }
    assert_eq!(reference(tokens("a-nb*c"), &pratt), "(a - ((neg b) * c))");
    assert_eq!(reference(tokens("np[a]*b"), &pratt), "((neg (index p a)) * b)");
}
