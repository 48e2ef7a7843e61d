//! What holds of the types in every tree that is built from a parse tree.

use super::climbers::array_sum;
use super::climbers::call_arguments;
use super::climbers::call_node;
use super::climbers::climb;
use super::climbers::climb_loop;
use super::climbers::climbed;
use super::climbers::func_call;
use super::climbers::infix;
use super::climbers::operator;
use super::climbers::postfix;
use super::climbers::prefix;
use super::climbers::primary;
use super::climbers::var_node;
use super::climbers::Affix;
use super::climbers::Climber;
use super::construct::assignment;
use super::construct::function_of;
use super::construct::if_node;
use super::construct::members;
use super::construct::return_node;
use super::construct::statement;
use super::construct::statements;
use super::construct::statements_upto;
use super::construct::while_node;
use super::node::NodeView;
use crate::parser::program_from;
use crate::parser::program_of;
use crate::parser::Pair;
use crate::parser::Rule;
use crate::symtable::object::SymTableView;
use crate::symtable::CType;
use vstd::prelude::*;

verus! {

/// The types of a tree agree: arithmetic and comparisons have the type of
/// their left operand, a negation that of its operand; a cast is to `int`
/// or `float`; a dereference has the type that its operand points to; an
/// address is a pointer to the type of its operand; a literal has a type
/// that it can be retyped to; an assignment stores what its target takes;
/// a return gives what its function returns.
pub open spec fn typed(n: NodeView) -> bool
    decreases n,
{
    match n {
        NodeView::Empty | NodeView::Var { .. } => true,
        NodeView::IntLit { ctype, .. } => ctype is Int || ctype is Float || ctype is Ptr,
        NodeView::FloatLit { ctype, .. } => ctype is Float,
        NodeView::BinaryOp { ctype, lhs, rhs, .. } => ctype == lhs.ctype() && typed(*lhs) && typed(
            *rhs,
        ),
        NodeView::ConditionalOp { ctype, lhs, rhs, .. } => ctype == lhs.ctype() && typed(*lhs)
            && typed(*rhs),
        NodeView::UnaryOp { ctype, expr } => ctype == expr.ctype() && typed(*expr),
        NodeView::Cast { ctype, expr } => (ctype is Int || ctype is Float) && typed(*expr),
        NodeView::Dereference { ctype, expr } => expr.ctype() == CType::Ptr(Box::new(ctype))
            && typed(*expr),
        NodeView::Reference { ctype, expr } => ctype == CType::Ptr(Box::new(expr.ctype()))
            && typed(*expr),
        NodeView::Address { ctype, expr } => ctype == expr.ctype() && typed(*expr),
        NodeView::Malloc { ctype, expr } => ctype is Ptr && typed(*expr),
        NodeView::Free { expr } => expr.ctype() is Ptr && typed(*expr),
        NodeView::Read { ctype, var } => ctype == var.ctype() && typed(*var),
        NodeView::Write { ctype, expr } => ctype == expr.ctype() && typed(*expr),
        NodeView::Assign { ctype, lhs, rhs } => rhs.ctype() == ctype && lhs.strip_ctype() == Ok::<
            CType,
            crate::error::ErrorKind,
        >(ctype) && typed(*lhs) && typed(*rhs),
        NodeView::Return { ctype, expr, .. } => (if *expr is Empty {
            ctype is Void
        } else {
            expr.ctype() == ctype
        }) && typed(*expr),
        NodeView::IfElse { cond, lhs, rhs } => typed(*cond) && typed(*lhs) && typed(*rhs),
        NodeView::While { cond, statements } => typed(*cond) && typed(*statements),
        NodeView::StatementList { statements } => forall|k: int|
            0 <= k < statements.len() ==> typed(#[trigger] statements[k]),
        NodeView::Function { statements, .. } => typed(*statements),
        NodeView::Call { arguments, .. } => forall|k: int|
            0 <= k < arguments.len() ==> typed(#[trigger] arguments[k]),
    }
}

/// In a tree whose types agree, arithmetic has a mutable type exactly
/// where its left operand has one, and a negation where its operand has
/// one.
pub proof fn lemma_arithmetic_mutable(n: NodeView)
    requires
        typed(n),
    ensures
        n matches NodeView::BinaryOp { lhs, .. } ==> (n.ctype().mutable() <==> lhs.ctype().mutable()),
        n matches NodeView::UnaryOp { expr, .. } ==> (n.ctype().mutable() <==> expr.ctype().mutable()),
{
}

/// Retyping keeps the types of a tree in agreement.
pub proof fn lemma_set_ctype_typed(n: NodeView, new: CType)
    requires
        typed(n),
    ensures
        n.set_ctype(new) matches Ok(m) ==> typed(m) && m.ctype() == new,
    decreases n,
{
    crate::ast::node::lemma_set_ctype(n, new);
    if n.ctype() != new && n.ctype().mutable() && new.mutable() {
        match n {
            NodeView::BinaryOp { op, lhs, rhs, .. } => {
                lemma_set_ctype_typed(*lhs, new);
                lemma_set_ctype_typed(*rhs, new);
            },
            NodeView::UnaryOp { expr, .. } => {
                lemma_set_ctype_typed(*expr, new);
            },
            _ => {},
        }
    }
}

proof fn lemma_prefix(c: Climber, op: Pair, rhs: NodeView)
    requires
        typed(rhs),
    ensures
        prefix(c, op, rhs) matches Ok(n) ==> typed(n),
{
}

proof fn lemma_infix(c: Climber, lhs: NodeView, op: Rule, rhs: NodeView)
    requires
        typed(lhs),
        typed(rhs),
    ensures
        infix(c, lhs, op, rhs) matches Ok(n) ==> typed(n),
{
    lemma_set_ctype_typed(lhs, rhs.ctype());
    lemma_set_ctype_typed(rhs, lhs.ctype());
    lemma_set_ctype_typed(lhs, CType::Float);
    lemma_set_ctype_typed(rhs, CType::Float);
    match infix(c, lhs, op, rhs) {
        Ok(NodeView::BinaryOp { lhs: l, rhs: r, .. }) => {
            assert(typed(*l));
            assert(typed(*r));
        },
        Ok(NodeView::ConditionalOp { lhs: l, rhs: r, .. }) => {
            assert(typed(*l));
            assert(typed(*r));
        },
        _ => {},
    }
}

proof fn lemma_array_sum(lhs: NodeView, index: NodeView)
    requires
        typed(lhs),
        typed(index),
    ensures
        array_sum(lhs, index) matches Ok(n) ==> typed(n) && n.ctype() == lhs.ctype(),
{
    let four = NodeView::IntLit { ctype: CType::Int, val: 4 };
    lemma_set_ctype_typed(four, lhs.ctype());
    match array_sum(lhs, index) {
        Ok(NodeView::BinaryOp { rhs, .. }) => {
            assert(typed(*rhs));
        },
        _ => {},
    }
}

/// The types of every tree that a grammar of operators builds agree.
pub proof fn lemma_climbed_typed(c: Climber, pairs: Seq<Pair>, t: SymTableView)
    ensures
        climbed(c, pairs, t) matches Ok(n) ==> typed(n),
    decreases pairs, pairs.len() + 1, 0int,
{
    lemma_climb_typed(c, pairs, 0, 0, t);
}

proof fn lemma_climb_typed(c: Climber, pairs: Seq<Pair>, pos: int, rbp: u32, t: SymTableView)
    ensures
        climb(c, pairs, pos, rbp, t) matches Ok((n, _)) ==> typed(n),
    decreases pairs, pairs.len() - pos, 1int,
{
    if 0 <= pos < pairs.len() {
        match operator(c, pairs[pos].rule) {
            Some((Affix::Prefix, prec)) => {
                lemma_climb_typed(c, pairs, pos + 1, (prec - 1) as u32, t);
                match climb(c, pairs, pos + 1, (prec - 1) as u32, t) {
                    Ok((rhs, next)) => {
                        lemma_prefix(c, pairs[pos], rhs);
                        match prefix(c, pairs[pos], rhs) {
                            Ok(node) => {
                                if pos < next <= pairs.len() {
                                    lemma_climb_loop_typed(c, pairs, node, next, rbp, t);
                                }
                            },
                            Err(_) => {},
                        }
                    },
                    Err(_) => {},
                }
            },
            Some(_) => {},
            None => {
                lemma_primary_typed(c, pairs[pos], t);
                match primary(c, pairs[pos], t) {
                    Ok(node) => {
                        lemma_climb_loop_typed(c, pairs, node, pos + 1, rbp, t);
                    },
                    Err(_) => {},
                }
            },
        }
    }
}

proof fn lemma_climb_loop_typed(
    c: Climber,
    pairs: Seq<Pair>,
    lhs: NodeView,
    pos: int,
    rbp: u32,
    t: SymTableView,
)
    requires
        typed(lhs),
    ensures
        climb_loop(c, pairs, lhs, pos, rbp, t) matches Ok((n, _)) ==> typed(n),
    decreases pairs, pairs.len() - pos, 0int,
{
    if 0 <= pos < pairs.len() {
        match operator(c, pairs[pos].rule) {
            None => {},
            Some((affix, prec)) => {
                if rbp < prec {
                    match affix {
                        Affix::Infix => {
                            lemma_climb_typed(c, pairs, pos + 1, prec, t);
                            match climb(c, pairs, pos + 1, prec, t) {
                                Ok((rhs, next)) => {
                                    lemma_infix(c, lhs, pairs[pos].rule, rhs);
                                    match infix(c, lhs, pairs[pos].rule, rhs) {
                                        Ok(node) => {
                                            if pos < next <= pairs.len() {
                                                lemma_climb_loop_typed(
                                                    c,
                                                    pairs,
                                                    node,
                                                    next,
                                                    rbp,
                                                    t,
                                                );
                                            }
                                        },
                                        Err(_) => {},
                                    }
                                },
                                Err(_) => {},
                            }
                        },
                        Affix::Postfix => {
                            lemma_postfix_typed(c, lhs, pairs[pos], t);
                            match postfix(c, lhs, pairs[pos], t) {
                                Ok(node) => {
                                    lemma_climb_loop_typed(c, pairs, node, pos + 1, rbp, t);
                                },
                                Err(_) => {},
                            }
                        },
                        Affix::Prefix => {},
                    }
                }
            },
        }
    }
}

proof fn lemma_primary_typed(c: Climber, pair: Pair, t: SymTableView)
    ensures
        primary(c, pair, t) matches Ok(n) ==> typed(n),
    decreases pair, 0int, 0int,
{
    match (c, pair.rule) {
        (Climber::Expr, Rule::Expr) | (Climber::Cond, Rule::Expr) => {
            lemma_climbed_typed(Climber::Expr, pair.inner@, t);
        },
        (Climber::Lval, Rule::Lval) => {
            lemma_climbed_typed(Climber::Lval, pair.inner@, t);
        },
        (Climber::Expr, Rule::Call) => {
            if pair.inner@.len() > 0 {
                lemma_call_node_typed(pair.inner@[0], t);
            }
        },
        _ => {},
    }
}

proof fn lemma_postfix_typed(c: Climber, lhs: NodeView, op: Pair, t: SymTableView)
    requires
        typed(lhs),
    ensures
        postfix(c, lhs, op, t) matches Ok(n) ==> typed(n),
    decreases op, 0int, 0int,
{
    if (c == Climber::Expr || c == Climber::Lval) && op.rule is ArrayExpr && op.inner@.len() > 0 {
        lemma_climbed_typed(Climber::Expr, op.inner@[0].inner@, t);
        match climbed(Climber::Expr, op.inner@[0].inner@, t) {
            Ok(index) => {
                lemma_array_sum(lhs, index);
            },
            Err(_) => {},
        }
    }
}

proof fn lemma_call_arguments_typed(pairs: Seq<Pair>, params: Seq<CType>, k: int, t: SymTableView)
    ensures
        call_arguments(pairs, params, k, t) matches Ok(list) ==> forall|i: int|
            0 <= i < list.len() ==> typed(#[trigger] list[i]),
    decreases pairs, k, 0int,
{
    if 0 < k < pairs.len() {
        lemma_call_arguments_typed(pairs, params, k - 1, t);
        lemma_climbed_typed(Climber::Expr, pairs[k].inner@, t);
        match climbed(Climber::Expr, pairs[k].inner@, t) {
            Ok(arg) => {
                lemma_set_ctype_typed(arg, params[k - 1]);
            },
            Err(_) => {},
        }
    }
}

proof fn lemma_func_call_typed(pair: Pair, t: SymTableView)
    ensures
        func_call(pair, t) matches Ok(n) ==> typed(n),
    decreases pair, 0int, 1int,
{
    if pair.inner@.len() > 0 {
        let ident = pair.inner@[0].text@;
        match t.get_symbol(ident) {
            Ok(symbol) => match symbol.arguments() {
                Ok(params) => {
                    let given = pair.inner@.len() - 1;
                    let read = if given < params.len() {
                        given
                    } else {
                        params.len() as int
                    };
                    lemma_call_arguments_typed(pair.inner@, params, read, t);
                },
                Err(_) => {},
            },
            Err(_) => {},
        }
    }
}

proof fn lemma_call_node_typed(pair: Pair, t: SymTableView)
    ensures
        call_node(pair, t) matches Ok(n) ==> typed(n),
    decreases pair, 0int, 2int,
{
    match pair.rule {
        Rule::FuncCall => {
            lemma_func_call_typed(pair, t);
        },
        Rule::ReadStmt => {
            if pair.inner@.len() > 0 {
                match var_node(pair.inner@[0].text@, t) {
                    Ok(var) => {
                        assert(typed(var));
                    },
                    Err(_) => {},
                }
            }
        },
        Rule::PrintStmt | Rule::MallocStmt | Rule::FreeStmt => {
            if pair.inner@.len() > 0 {
                lemma_climbed_typed(Climber::Expr, pair.inner@[0].inner@, t);
            }
        },
        _ => {},
    }
}

proof fn lemma_assignment_typed(inner: Seq<Pair>, t: SymTableView)
    ensures
        assignment(inner, t) matches Ok(n) ==> typed(n),
{
    if inner.len() >= 2 {
        lemma_climbed_typed(Climber::Lval, inner[0].inner@, t);
        lemma_climbed_typed(Climber::Expr, inner[1].inner@, t);
        match (climbed(Climber::Lval, inner[0].inner@, t), climbed(Climber::Expr, inner[1].inner@, t)) {
            (Ok(lhs), Ok(rhs)) => match lhs.strip_ctype() {
                Ok(ctype) => {
                    lemma_set_ctype_typed(rhs, ctype);
                    if rhs.ctype() != ctype && (ctype is Int || ctype is Float) {
                        assert(typed(rhs.cast(ctype)));
                        assert(rhs.cast(ctype).ctype() == ctype);
                    }
                },
                Err(_) => {},
            },
            _ => {},
        }
    }
}

proof fn lemma_return_typed(inner: Seq<Pair>, t: SymTableView)
    ensures
        return_node(inner, t) matches Ok(n) ==> typed(n),
{
    assert(typed(NodeView::Empty));
    match t.current().get_scope_ctype() {
        Ok(ctype) => {
            if inner.len() > 0 {
                lemma_climbed_typed(Climber::Expr, inner[0].inner@, t);
                match climbed(Climber::Expr, inner[0].inner@, t) {
                    Ok(value) => {
                        lemma_set_ctype_typed(value, ctype);
                        match value.set_ctype(ctype) {
                            Ok(expr) => {
                                if expr is Empty {
                                    assert(expr.ctype() is Void);
                                }
                            },
                            Err(_) => {},
                        }
                    },
                    Err(_) => {},
                }
            }
        },
        Err(_) => {},
    }
}

/// The types of the tree of every statement agree.
pub proof fn lemma_statement_typed(pair: Pair, t: SymTableView)
    ensures
        statement(pair, t) matches Ok(n) ==> typed(n),
    decreases pair, 1int,
{
    match pair.rule {
        Rule::Call => {
            if pair.inner@.len() > 0 {
                lemma_call_node_typed(pair.inner@[0], t);
            }
        },
        Rule::AssignStmt => {
            lemma_assignment_typed(pair.inner@, t);
        },
        Rule::ReturnStmt => {
            lemma_return_typed(pair.inner@, t);
        },
        Rule::IfStmt => {
            lemma_if_typed(pair, t);
        },
        Rule::WhileStmt => {
            lemma_while_typed(pair, t);
        },
        _ => {},
    }
}

proof fn lemma_if_typed(pair: Pair, t: SymTableView)
    ensures
        if_node(pair, t) matches Ok(n) ==> typed(n),
    decreases pair, 0int,
{
    assert(typed(NodeView::Empty));
    if pair.inner@.len() >= 2 {
        lemma_climbed_typed(Climber::Cond, pair.inner@[0].inner@, t);
        lemma_statements_typed(pair.inner@[1], t);
        match (climbed(Climber::Cond, pair.inner@[0].inner@, t), statements(pair.inner@[1], t)) {
            (Ok(cond), Ok(lhs)) => {
                if pair.inner@.len() < 3 {
                    assert(typed(
                        NodeView::IfElse {
                            cond: Box::new(cond),
                            lhs: Box::new(lhs),
                            rhs: Box::new(NodeView::Empty),
                        },
                    ));
                } else {
                    lemma_statements_typed(pair.inner@[2], t);
                    match statements(pair.inner@[2], t) {
                        Ok(rhs) => {
                            assert(typed(
                                NodeView::IfElse {
                                    cond: Box::new(cond),
                                    lhs: Box::new(lhs),
                                    rhs: Box::new(rhs),
                                },
                            ));
                        },
                        Err(_) => {},
                    }
                }
            },
            _ => {},
        }
    }
}

proof fn lemma_while_typed(pair: Pair, t: SymTableView)
    ensures
        while_node(pair, t) matches Ok(n) ==> typed(n),
    decreases pair, 0int,
{
    if pair.inner@.len() >= 2 {
        lemma_climbed_typed(Climber::Cond, pair.inner@[0].inner@, t);
        lemma_statements_typed(pair.inner@[1], t);
        match (climbed(Climber::Cond, pair.inner@[0].inner@, t), statements(pair.inner@[1], t)) {
            (Ok(cond), Ok(body)) => {
                assert(typed(
                    NodeView::While { cond: Box::new(cond), statements: Box::new(body) },
                ));
            },
            _ => {},
        }
    }
}

/// The types of the tree of every list of statements agree.
pub proof fn lemma_statements_typed(pair: Pair, t: SymTableView)
    ensures
        statements(pair, t) matches Ok(n) ==> typed(n),
    decreases pair, 2int,
{
    lemma_statements_upto_typed(pair.inner@, pair.inner@.len() as int, t);
}

proof fn lemma_statements_upto_typed(pairs: Seq<Pair>, k: int, t: SymTableView)
    ensures
        statements_upto(pairs, k, t) matches Ok(list) ==> forall|i: int|
            0 <= i < list.len() ==> typed(#[trigger] list[i]),
    decreases pairs, k,
{
    if 0 < k <= pairs.len() {
        lemma_statements_upto_typed(pairs, k - 1, t);
        lemma_statement_typed(pairs[k - 1], t);
    }
}

proof fn lemma_members_typed(pairs: Seq<Pair>, pos: int, t: SymTableView, body: NodeView)
    requires
        typed(body),
    ensures
        members(pairs, pos, t, body).1 matches Ok(n) ==> typed(n),
    decreases pairs.len() - pos,
{
    if 0 <= pos < pairs.len() {
        match pairs[pos].rule {
            Rule::VarDecl => match super::construct::declaration(pairs[pos]) {
                Ok((ctype, name)) => {
                    let (next, r) = t.add_symbol(
                        ctype,
                        name,
                        crate::symtable::entry::SymbolTypeView::Local,
                    );
                    if r is Ok {
                        lemma_members_typed(pairs, pos + 1, next, body);
                    }
                },
                Err(_) => {},
            },
            Rule::Statements => {
                lemma_statements_typed(pairs[pos], t);
                match statements(pairs[pos], t) {
                    Ok(list) => {
                        lemma_members_typed(pairs, pos + 1, t, list);
                    },
                    Err(_) => {},
                }
            },
            _ => {},
        }
    }
}

/// The types of the tree of every function agree.
pub proof fn lemma_function_typed(pair: Pair, t: SymTableView)
    ensures
        function_of(pair, t).1 matches Ok(n) ==> typed(n),
{
    let inner = pair.inner@;
    if inner.len() >= 3 {
        match (crate::symtable::ctype::base_type(inner[0].inner@), super::construct::params_of(inner[2])) {
            (Ok(ret_type), Ok(params)) => {
                let name = inner[1].text@;
                let (t1, found) = super::construct::declared(
                    t,
                    ret_type,
                    name,
                    super::construct::param_types(params),
                );
                match found {
                    Ok(symbol) => {
                        let (t2, pushed) = t1.push_scope(symbol.address(), name, ret_type);
                        if pushed is Ok {
                            let (t3, added) = super::construct::with_params(params, 0, t2);
                            if added is Ok {
                                lemma_members_typed(inner, 3, t3, NodeView::Empty);
                            }
                        }
                    },
                    Err(_) => {},
                }
            },
            _ => {},
        }
    }
}

proof fn lemma_program_from_typed(pairs: Seq<Pair>, pos: int, t: SymTableView, done: Seq<NodeView>)
    requires
        forall|i: int| 0 <= i < done.len() ==> typed(#[trigger] done[i]),
    ensures
        program_from(pairs, pos, t, done).1 matches Ok(list) ==> forall|i: int|
            0 <= i < list.len() ==> typed(#[trigger] list[i]),
    decreases pairs.len() - pos,
{
    if 0 <= pos < pairs.len() {
        match pairs[pos].rule {
            Rule::FuncDecl | Rule::VarDecl | Rule::StrDecl => {
                let (next, r) = match pairs[pos].rule {
                    Rule::FuncDecl => crate::parser::prototype(pairs[pos], t),
                    Rule::VarDecl => crate::parser::global(pairs[pos], t),
                    _ => crate::parser::string(pairs[pos], t),
                };
                if r is Ok {
                    lemma_program_from_typed(pairs, pos + 1, next, done);
                }
            },
            Rule::Function => {
                let (next, r) = function_of(pairs[pos], t);
                lemma_function_typed(pairs[pos], t);
                match r {
                    Ok(f) => {
                        assert forall|i: int| 0 <= i < done.push(f).len() implies typed(
                            #[trigger] done.push(f)[i],
                        ) by {
                            if i < done.len() {
                                assert(done.push(f)[i] == done[i]);
                            }
                        }
                        lemma_program_from_typed(pairs, pos + 1, next, done.push(f));
                    },
                    Err(_) => {},
                }
            },
            _ => {},
        }
    }
}

/// The types of the tree of every program agree.
pub proof fn lemma_program_typed(pairs: Seq<Pair>)
    ensures
        program_of(pairs).1 matches Ok(ast) ==> typed(ast),
{
    lemma_program_from_typed(
        pairs,
        0,
        SymTableView::fresh(crate::parser::GLOBAL_BASE, crate::parser::STRING_BASE),
        Seq::empty(),
    );
}

} // verus!
