//! What holds of the shape of every tree that is built from a parse tree.

use super::climbers::array_sum;
use super::climbers::call_arguments;
use super::climbers::call_node;
use super::climbers::climb;
use super::climbers::climb_loop;
use super::climbers::climbed;
use super::climbers::func_call;
use super::climbers::infix;
use super::climbers::operator;
use super::climbers::postfix;
use super::climbers::prefix;
use super::climbers::primary;
use super::climbers::var_node;
use super::climbers::Affix;
use super::climbers::Climber;
use super::construct::assignment;
use super::construct::function_of;
use super::construct::if_node;
use super::construct::members;
use super::construct::return_node;
use super::construct::statement;
use super::construct::statements;
use super::construct::statements_upto;
use super::construct::while_node;
use super::node::NodeView;
use crate::parser::program_from;
use crate::parser::program_of;
use crate::parser::Pair;
use crate::parser::Rule;
use crate::symtable::object::SymTableView;
use crate::symtable::CType;
use crate::three_ac::laws::calm;
use vstd::prelude::*;

verus! {

/// An expression, or comparisons over expressions.
pub open spec fn compares(n: NodeView) -> bool
    decreases n,
{
    calm(n) || (n matches NodeView::ConditionalOp { lhs, rhs, .. } && compares(*lhs) && compares(
        *rhs,
    ))
}

/// Statements: plain ones, lists of statements, and branches and loops
/// over statements whose conditions are expressions or comparisons.
pub open spec fn shaped(n: NodeView) -> bool
    decreases n,
{
    match n {
        NodeView::IfElse { cond, lhs, rhs } => compares(*cond) && shaped(*lhs) && shaped(*rhs),
        NodeView::While { cond, statements } => compares(*cond) && shaped(*statements),
        NodeView::StatementList { statements } => forall|k: int|
            0 <= k < statements.len() ==> shaped(#[trigger] statements[k]),
        NodeView::Function { .. } => false,
        _ => calm(n),
    }
}

/// A list of functions whose bodies are statements.
pub open spec fn program_shaped(n: NodeView) -> bool {
    n matches NodeView::StatementList { statements } && forall|k: int|
        0 <= k < statements.len() ==> (#[trigger] statements[k]) is Function && shaped(
            *(statements[k]->Function_statements),
        )
}

/// What a grammar of operators builds: comparisons from the grammar of
/// conditions, expressions from the two others.
pub open spec fn fits(c: Climber, n: NodeView) -> bool {
    if c == Climber::Cond {
        compares(n)
    } else {
        calm(n)
    }
}

/// Retyping keeps an expression an expression, and comparisons
/// comparisons.
pub proof fn lemma_set_ctype_shape(n: NodeView, new: CType)
    ensures
        n.set_ctype(new) matches Ok(m) ==> (calm(n) ==> calm(m)) && (compares(n) ==> compares(m)),
    decreases n,
{
    if n.ctype() != new && n.ctype().mutable() && new.mutable() {
        match n {
            NodeView::BinaryOp { op, lhs, rhs, .. } => {
                lemma_set_ctype_shape(*lhs, new);
                lemma_set_ctype_shape(*rhs, new);
                match (lhs.set_ctype(new), rhs.set_ctype(new)) {
                    (Ok(l), Ok(r)) => {
                        if calm(n) {
                            assert(calm(*lhs) && calm(*rhs));
                            assert(calm(
                                NodeView::BinaryOp {
                                    ctype: new,
                                    op,
                                    lhs: Box::new(l),
                                    rhs: Box::new(r),
                                },
                            ));
                        }
                    },
                    _ => {},
                }
            },
            NodeView::UnaryOp { expr, .. } => {
                lemma_set_ctype_shape(*expr, new);
                match expr.set_ctype(new) {
                    Ok(x) => {
                        if calm(n) {
                            assert(calm(*expr));
                            assert(calm(NodeView::UnaryOp { ctype: new, expr: Box::new(x) }));
                        }
                    },
                    Err(_) => {},
                }
            },
            _ => {},
        }
    }
}

proof fn lemma_prefix(c: Climber, op: Pair, rhs: NodeView)
    requires
        calm(rhs),
    ensures
        prefix(c, op, rhs) matches Ok(n) ==> calm(n) && c != Climber::Cond,
{
}

proof fn lemma_infix(c: Climber, lhs: NodeView, op: Rule, rhs: NodeView)
    requires
        fits(c, lhs),
        fits(c, rhs),
    ensures
        infix(c, lhs, op, rhs) matches Ok(n) ==> fits(c, n),
{
    lemma_set_ctype_shape(lhs, rhs.ctype());
    lemma_set_ctype_shape(rhs, lhs.ctype());
    lemma_set_ctype_shape(lhs, CType::Float);
    lemma_set_ctype_shape(rhs, CType::Float);
    match c {
        Climber::Expr => {
            assert(calm(lhs.cast(CType::Float)));
            assert(calm(rhs.cast(CType::Float)));
            match infix(c, lhs, op, rhs) {
                Ok(NodeView::BinaryOp { lhs: l, rhs: r, .. }) => {
                    assert(calm(*l) && calm(*r));
                },
                _ => {},
            }
        },
        Climber::Lval => {
            match infix(c, lhs, op, rhs) {
                Ok(NodeView::BinaryOp { lhs: l, rhs: r, .. }) => {
                    assert(calm(*l) && calm(*r));
                },
                _ => {},
            }
        },
        Climber::Cond => {
            match infix(c, lhs, op, rhs) {
                Ok(NodeView::ConditionalOp { lhs: l, rhs: r, .. }) => {
                    assert(compares(*l) && compares(*r));
                },
                _ => {},
            }
        },
    }
}

proof fn lemma_array_sum(lhs: NodeView, index: NodeView)
    requires
        calm(lhs),
        calm(index),
    ensures
        array_sum(lhs, index) matches Ok(n) ==> calm(n),
{
    let four = NodeView::IntLit { ctype: CType::Int, val: 4 };
    assert(calm(four));
    lemma_set_ctype_shape(four, lhs.ctype());
    match array_sum(lhs, index) {
        Ok(NodeView::BinaryOp { rhs, .. }) => {
            assert(calm(*rhs));
        },
        _ => {},
    }
}

/// What a grammar of operators builds has the shape of its grammar.
pub proof fn lemma_climbed_shape(c: Climber, pairs: Seq<Pair>, t: SymTableView)
    ensures
        climbed(c, pairs, t) matches Ok(n) ==> fits(c, n),
    decreases pairs, pairs.len() + 1, 0int,
{
    lemma_climb_shape(c, pairs, 0, 0, t);
}

proof fn lemma_climb_shape(c: Climber, pairs: Seq<Pair>, pos: int, rbp: u32, t: SymTableView)
    ensures
        climb(c, pairs, pos, rbp, t) matches Ok((n, _)) ==> fits(c, n),
    decreases pairs, pairs.len() - pos, 1int,
{
    if 0 <= pos < pairs.len() {
        match operator(c, pairs[pos].rule) {
            Some((Affix::Prefix, prec)) => {
                lemma_climb_shape(c, pairs, pos + 1, (prec - 1) as u32, t);
                match climb(c, pairs, pos + 1, (prec - 1) as u32, t) {
                    Ok((rhs, next)) => {
                        lemma_prefix(c, pairs[pos], rhs);
                        match prefix(c, pairs[pos], rhs) {
                            Ok(node) => {
                                if pos < next <= pairs.len() {
                                    lemma_climb_loop_shape(c, pairs, node, next, rbp, t);
                                }
                            },
                            Err(_) => {},
                        }
                    },
                    Err(_) => {},
                }
            },
            Some(_) => {},
            None => {
                lemma_primary_shape(c, pairs[pos], t);
                match primary(c, pairs[pos], t) {
                    Ok(node) => {
                        lemma_climb_loop_shape(c, pairs, node, pos + 1, rbp, t);
                    },
                    Err(_) => {},
                }
            },
        }
    }
}

proof fn lemma_climb_loop_shape(
    c: Climber,
    pairs: Seq<Pair>,
    lhs: NodeView,
    pos: int,
    rbp: u32,
    t: SymTableView,
)
    requires
        fits(c, lhs),
    ensures
        climb_loop(c, pairs, lhs, pos, rbp, t) matches Ok((n, _)) ==> fits(c, n),
    decreases pairs, pairs.len() - pos, 0int,
{
    if 0 <= pos < pairs.len() {
        match operator(c, pairs[pos].rule) {
            None => {},
            Some((affix, prec)) => {
                if rbp < prec {
                    match affix {
                        Affix::Infix => {
                            lemma_climb_shape(c, pairs, pos + 1, prec, t);
                            match climb(c, pairs, pos + 1, prec, t) {
                                Ok((rhs, next)) => {
                                    lemma_infix(c, lhs, pairs[pos].rule, rhs);
                                    match infix(c, lhs, pairs[pos].rule, rhs) {
                                        Ok(node) => {
                                            if pos < next <= pairs.len() {
                                                lemma_climb_loop_shape(
                                                    c,
                                                    pairs,
                                                    node,
                                                    next,
                                                    rbp,
                                                    t,
                                                );
                                            }
                                        },
                                        Err(_) => {},
                                    }
                                },
                                Err(_) => {},
                            }
                        },
                        Affix::Postfix => {
                            lemma_postfix_shape(c, lhs, pairs[pos], t);
                            match postfix(c, lhs, pairs[pos], t) {
                                Ok(node) => {
                                    lemma_climb_loop_shape(c, pairs, node, pos + 1, rbp, t);
                                },
                                Err(_) => {},
                            }
                        },
                        Affix::Prefix => {},
                    }
                }
            },
        }
    }
}

proof fn lemma_primary_shape(c: Climber, pair: Pair, t: SymTableView)
    ensures
        primary(c, pair, t) matches Ok(n) ==> calm(n),
    decreases pair, 0int, 0int,
{
    match (c, pair.rule) {
        (Climber::Expr, Rule::Expr) | (Climber::Cond, Rule::Expr) => {
            lemma_climbed_shape(Climber::Expr, pair.inner@, t);
        },
        (Climber::Lval, Rule::Lval) => {
            lemma_climbed_shape(Climber::Lval, pair.inner@, t);
        },
        (Climber::Expr, Rule::Call) => {
            if pair.inner@.len() > 0 {
                lemma_call_node_shape(pair.inner@[0], t);
            }
        },
        _ => {},
    }
}

proof fn lemma_postfix_shape(c: Climber, lhs: NodeView, op: Pair, t: SymTableView)
    requires
        fits(c, lhs),
    ensures
        postfix(c, lhs, op, t) matches Ok(n) ==> fits(c, n),
    decreases op, 0int, 0int,
{
    if (c == Climber::Expr || c == Climber::Lval) && op.rule is ArrayExpr && op.inner@.len() > 0 {
        lemma_climbed_shape(Climber::Expr, op.inner@[0].inner@, t);
        match climbed(Climber::Expr, op.inner@[0].inner@, t) {
            Ok(index) => {
                lemma_array_sum(lhs, index);
            },
            Err(_) => {},
        }
    }
}

proof fn lemma_call_arguments_shape(pairs: Seq<Pair>, params: Seq<CType>, k: int, t: SymTableView)
    ensures
        call_arguments(pairs, params, k, t) matches Ok(list) ==> forall|i: int|
            0 <= i < list.len() ==> calm(#[trigger] list[i]),
    decreases pairs, k, 0int,
{
    if 0 < k < pairs.len() {
        lemma_call_arguments_shape(pairs, params, k - 1, t);
        lemma_climbed_shape(Climber::Expr, pairs[k].inner@, t);
        match climbed(Climber::Expr, pairs[k].inner@, t) {
            Ok(arg) => {
                lemma_set_ctype_shape(arg, params[k - 1]);
            },
            Err(_) => {},
        }
    }
}

proof fn lemma_func_call_shape(pair: Pair, t: SymTableView)
    ensures
        func_call(pair, t) matches Ok(n) ==> calm(n),
    decreases pair, 0int, 1int,
{
    if pair.inner@.len() > 0 {
        let ident = pair.inner@[0].text@;
        match t.get_symbol(ident) {
            Ok(symbol) => match symbol.arguments() {
                Ok(params) => {
                    let given = pair.inner@.len() - 1;
                    let read = if given < params.len() {
                        given
                    } else {
                        params.len() as int
                    };
                    lemma_call_arguments_shape(pair.inner@, params, read, t);
                },
                Err(_) => {},
            },
            Err(_) => {},
        }
    }
}

proof fn lemma_call_node_shape(pair: Pair, t: SymTableView)
    ensures
        call_node(pair, t) matches Ok(n) ==> calm(n),
    decreases pair, 0int, 2int,
{
    match pair.rule {
        Rule::FuncCall => {
            lemma_func_call_shape(pair, t);
        },
        Rule::ReadStmt => {
            if pair.inner@.len() > 0 {
                match var_node(pair.inner@[0].text@, t) {
                    Ok(var) => {
                        assert(calm(var));
                    },
                    Err(_) => {},
                }
            }
        },
        Rule::PrintStmt | Rule::MallocStmt | Rule::FreeStmt => {
            if pair.inner@.len() > 0 {
                lemma_climbed_shape(Climber::Expr, pair.inner@[0].inner@, t);
            }
        },
        _ => {},
    }
}

proof fn lemma_assignment_shape(inner: Seq<Pair>, t: SymTableView)
    ensures
        assignment(inner, t) matches Ok(n) ==> calm(n),
{
    if inner.len() >= 2 {
        lemma_climbed_shape(Climber::Lval, inner[0].inner@, t);
        lemma_climbed_shape(Climber::Expr, inner[1].inner@, t);
        match (climbed(Climber::Lval, inner[0].inner@, t), climbed(Climber::Expr, inner[1].inner@, t)) {
            (Ok(lhs), Ok(rhs)) => match lhs.strip_ctype() {
                Ok(ctype) => {
                    lemma_set_ctype_shape(rhs, ctype);
                    assert(calm(rhs.cast(ctype)));
                },
                Err(_) => {},
            },
            _ => {},
        }
    }
}

proof fn lemma_return_shape(inner: Seq<Pair>, t: SymTableView)
    ensures
        return_node(inner, t) matches Ok(n) ==> calm(n),
{
    assert(calm(NodeView::Empty));
    match t.current().get_scope_ctype() {
        Ok(ctype) => {
            if inner.len() > 0 {
                lemma_climbed_shape(Climber::Expr, inner[0].inner@, t);
                match climbed(Climber::Expr, inner[0].inner@, t) {
                    Ok(value) => {
                        lemma_set_ctype_shape(value, ctype);
                    },
                    Err(_) => {},
                }
            }
        },
        Err(_) => {},
    }
}

/// Every statement has the shape of a statement.
pub proof fn lemma_statement_shape(pair: Pair, t: SymTableView)
    ensures
        statement(pair, t) matches Ok(n) ==> shaped(n),
    decreases pair, 1int,
{
    match pair.rule {
        Rule::Call => {
            if pair.inner@.len() > 0 {
                lemma_call_node_shape(pair.inner@[0], t);
            }
        },
        Rule::AssignStmt => {
            lemma_assignment_shape(pair.inner@, t);
        },
        Rule::ReturnStmt => {
            lemma_return_shape(pair.inner@, t);
        },
        Rule::IfStmt => {
            lemma_if_shape(pair, t);
        },
        Rule::WhileStmt => {
            lemma_while_shape(pair, t);
        },
        _ => {},
    }
}

proof fn lemma_if_shape(pair: Pair, t: SymTableView)
    ensures
        if_node(pair, t) matches Ok(n) ==> shaped(n),
    decreases pair, 0int,
{
    assert(shaped(NodeView::Empty));
    if pair.inner@.len() >= 2 {
        lemma_climbed_shape(Climber::Cond, pair.inner@[0].inner@, t);
        lemma_statements_shape(pair.inner@[1], t);
        match (climbed(Climber::Cond, pair.inner@[0].inner@, t), statements(pair.inner@[1], t)) {
            (Ok(cond), Ok(lhs)) => {
                if pair.inner@.len() < 3 {
                    assert(shaped(
                        NodeView::IfElse {
                            cond: Box::new(cond),
                            lhs: Box::new(lhs),
                            rhs: Box::new(NodeView::Empty),
                        },
                    ));
                } else {
                    lemma_statements_shape(pair.inner@[2], t);
                    match statements(pair.inner@[2], t) {
                        Ok(rhs) => {
                            assert(shaped(
                                NodeView::IfElse {
                                    cond: Box::new(cond),
                                    lhs: Box::new(lhs),
                                    rhs: Box::new(rhs),
                                },
                            ));
                        },
                        Err(_) => {},
                    }
                }
            },
            _ => {},
        }
    }
}

proof fn lemma_while_shape(pair: Pair, t: SymTableView)
    ensures
        while_node(pair, t) matches Ok(n) ==> shaped(n),
    decreases pair, 0int,
{
    if pair.inner@.len() >= 2 {
        lemma_climbed_shape(Climber::Cond, pair.inner@[0].inner@, t);
        lemma_statements_shape(pair.inner@[1], t);
        match (climbed(Climber::Cond, pair.inner@[0].inner@, t), statements(pair.inner@[1], t)) {
            (Ok(cond), Ok(body)) => {
                assert(shaped(
                    NodeView::While { cond: Box::new(cond), statements: Box::new(body) },
                ));
            },
            _ => {},
        }
    }
}

/// Every list of statements has the shape of statements.
pub proof fn lemma_statements_shape(pair: Pair, t: SymTableView)
    ensures
        statements(pair, t) matches Ok(n) ==> shaped(n),
    decreases pair, 2int,
{
    lemma_statements_upto_shape(pair.inner@, pair.inner@.len() as int, t);
}

proof fn lemma_statements_upto_shape(pairs: Seq<Pair>, k: int, t: SymTableView)
    ensures
        statements_upto(pairs, k, t) matches Ok(list) ==> forall|i: int|
            0 <= i < list.len() ==> shaped(#[trigger] list[i]),
    decreases pairs, k,
{
    if 0 < k <= pairs.len() {
        lemma_statements_upto_shape(pairs, k - 1, t);
        lemma_statement_shape(pairs[k - 1], t);
    }
}

proof fn lemma_members_shape(pairs: Seq<Pair>, pos: int, t: SymTableView, body: NodeView)
    requires
        shaped(body),
    ensures
        members(pairs, pos, t, body).1 matches Ok(n) ==> shaped(n),
    decreases pairs.len() - pos,
{
    if 0 <= pos < pairs.len() {
        match pairs[pos].rule {
            Rule::VarDecl => match super::construct::declaration(pairs[pos]) {
                Ok((ctype, name)) => {
                    let (next, r) = t.add_symbol(
                        ctype,
                        name,
                        crate::symtable::entry::SymbolTypeView::Local,
                    );
                    if r is Ok {
                        lemma_members_shape(pairs, pos + 1, next, body);
                    }
                },
                Err(_) => {},
            },
            Rule::Statements => {
                lemma_statements_shape(pairs[pos], t);
                match statements(pairs[pos], t) {
                    Ok(list) => {
                        lemma_members_shape(pairs, pos + 1, t, list);
                    },
                    Err(_) => {},
                }
            },
            _ => {},
        }
    }
}

/// The tree of every function is a function whose body has the shape of
/// statements.
pub proof fn lemma_function_shape(pair: Pair, t: SymTableView)
    ensures
        function_of(pair, t).1 matches Ok(n) ==> n is Function && shaped(*(n->Function_statements)),
{
    assert(shaped(NodeView::Empty));
    let inner = pair.inner@;
    if inner.len() >= 3 {
        match (crate::symtable::ctype::base_type(inner[0].inner@), super::construct::params_of(inner[2])) {
            (Ok(ret_type), Ok(params)) => {
                let name = inner[1].text@;
                let (t1, found) = super::construct::declared(
                    t,
                    ret_type,
                    name,
                    super::construct::param_types(params),
                );
                match found {
                    Ok(symbol) => {
                        let (t2, pushed) = t1.push_scope(symbol.address(), name, ret_type);
                        if pushed is Ok {
                            let (t3, added) = super::construct::with_params(params, 0, t2);
                            if added is Ok {
                                lemma_members_shape(inner, 3, t3, NodeView::Empty);
                            }
                        }
                    },
                    Err(_) => {},
                }
            },
            _ => {},
        }
    }
}

proof fn lemma_program_from_shape(pairs: Seq<Pair>, pos: int, t: SymTableView, done: Seq<NodeView>)
    requires
        forall|i: int|
            0 <= i < done.len() ==> (#[trigger] done[i]) is Function && shaped(
                *(done[i]->Function_statements),
            ),
    ensures
        program_from(pairs, pos, t, done).1 matches Ok(list) ==> forall|i: int|
            0 <= i < list.len() ==> (#[trigger] list[i]) is Function && shaped(
                *(list[i]->Function_statements),
            ),
    decreases pairs.len() - pos,
{
    if 0 <= pos < pairs.len() {
        match pairs[pos].rule {
            Rule::FuncDecl | Rule::VarDecl | Rule::StrDecl => {
                let (next, r) = match pairs[pos].rule {
                    Rule::FuncDecl => crate::parser::prototype(pairs[pos], t),
                    Rule::VarDecl => crate::parser::global(pairs[pos], t),
                    _ => crate::parser::string(pairs[pos], t),
                };
                if r is Ok {
                    lemma_program_from_shape(pairs, pos + 1, next, done);
                }
            },
            Rule::Function => {
                let (next, r) = function_of(pairs[pos], t);
                lemma_function_shape(pairs[pos], t);
                match r {
                    Ok(f) => {
                        assert forall|i: int| 0 <= i < done.push(f).len() implies (
                        #[trigger] done.push(f)[i]) is Function && shaped(
                            *(done.push(f)[i]->Function_statements),
                        ) by {
                            if i < done.len() {
                                assert(done.push(f)[i] == done[i]);
                            }
                        }
                        lemma_program_from_shape(pairs, pos + 1, next, done.push(f));
                    },
                    Err(_) => {},
                }
            },
            _ => {},
        }
    }
}

/// The tree of every program is a list of functions whose bodies have the
/// shape of statements.
pub proof fn lemma_program_shape(pairs: Seq<Pair>)
    ensures
        program_of(pairs).1 matches Ok(ast) ==> program_shaped(ast),
{
    lemma_program_from_shape(
        pairs,
        0,
        SymTableView::fresh(crate::parser::GLOBAL_BASE, crate::parser::STRING_BASE),
        Seq::empty(),
    );
}

} // verus!
