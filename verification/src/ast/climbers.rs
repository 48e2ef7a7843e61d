use super::node::BinOp;
use super::node::CondOp;
use super::node::Node;
use super::node::NodeView;
use crate::error::outcome;
use crate::error::Error;
use crate::error::ErrorKind;
use crate::parser::Pair;
use crate::parser::Rule;
use crate::symtable::ctype::base_type;
use crate::symtable::object::SymTableView;
use crate::symtable::CType;
use crate::symtable::SymTable;
use crate::text::parse_i32;
use crate::text::parse_int;
use vstd::prelude::*;

verus! {

/// The three grammars of operators: expressions, conditions and assignment
/// targets.
#[derive(Clone, Copy, Debug, PartialEq, Eq, Structural)]
pub enum Climber {
    Expr,
    Cond,
    Lval,
}

/// Where an operator stands against its operands.
#[derive(Clone, Copy, Debug, PartialEq, Eq, Structural)]
pub enum Affix {
    Prefix,
    Postfix,
    Infix,
}

/// The operators of each grammar with their binding power; every infix
/// operator associates to the left. In expressions and targets: `+ -`,
/// then `* /`, then the prefix operators, then indexing. In conditions:
/// `== !=`, then the four orderings.
pub open spec fn operator(c: Climber, rule: Rule) -> Option<(Affix, u32)> {
    match c {
        Climber::Expr => match rule {
            Rule::Plus | Rule::Minus => Some((Affix::Infix, 20u32)),
            Rule::Times | Rule::Divide => Some((Affix::Infix, 30u32)),
            Rule::Neg | Rule::BaseType | Rule::Dereference | Rule::Reference => Some(
                (Affix::Prefix, 40u32),
            ),
            Rule::ArrayExpr => Some((Affix::Postfix, 50u32)),
            _ => None,
        },
        Climber::Cond => match rule {
            Rule::Equal | Rule::NotEqual => Some((Affix::Infix, 20u32)),
            Rule::Less | Rule::LessEqual | Rule::Greater | Rule::GreaterEqual => Some(
                (Affix::Infix, 30u32),
            ),
            _ => None,
        },
        Climber::Lval => match rule {
            Rule::Plus | Rule::Minus => Some((Affix::Infix, 20u32)),
            Rule::Times | Rule::Divide => Some((Affix::Infix, 30u32)),
            Rule::Neg | Rule::BaseType | Rule::Address => Some((Affix::Prefix, 40u32)),
            Rule::ArrayExpr => Some((Affix::Postfix, 50u32)),
            _ => None,
        },
    }
}

/// The arithmetic operator that a token stands for.
pub open spec fn bin_op(rule: Rule) -> BinOp {
    match rule {
        Rule::Plus => BinOp::Plus,
        Rule::Minus => BinOp::Minus,
        Rule::Times => BinOp::Times,
        _ => BinOp::Divide,
    }
}

/// The comparison that a token stands for.
pub open spec fn cond_op(rule: Rule) -> CondOp {
    match rule {
        Rule::Equal => CondOp::Equal,
        Rule::NotEqual => CondOp::NotEqual,
        Rule::Less => CondOp::Less,
        Rule::LessEqual => CondOp::LessEqual,
        Rule::Greater => CondOp::Greater,
        _ => CondOp::GreaterEqual,
    }
}

/// A use of a variable: its type, and the nearest scope that declares it.
pub open spec fn var_node(name: Seq<char>, t: SymTableView) -> Result<NodeView, ErrorKind> {
    match t.get_symbol(name) {
        Err(e) => Err(e),
        Ok(symbol) => match t.get_scope(name) {
            Err(e) => Err(e),
            Ok(scope) => Ok(NodeView::Var { ctype: symbol.ctype(), ident: name, scope }),
        },
    }
}

/// An operator before its operand. A negation has the type of its operand.
/// A cast is to `int` or `float`. A dereference needs a pointer and has
/// the type it points to. The address of a dereference is what was
/// dereferenced; the address of anything else is a pointer to its type. An
/// address mark on a target has the type of its operand.
pub open spec fn prefix(c: Climber, op: Pair, rhs: NodeView) -> Result<NodeView, ErrorKind> {
    match (c, op.rule) {
        (Climber::Expr, Rule::Neg) | (Climber::Lval, Rule::Neg) => Ok(
            NodeView::UnaryOp { ctype: rhs.ctype(), expr: Box::new(rhs) },
        ),
        (Climber::Expr, Rule::BaseType) | (Climber::Lval, Rule::BaseType) => match base_type(
            op.inner@,
        ) {
            Ok(CType::Int) => Ok(NodeView::Cast { ctype: CType::Int, expr: Box::new(rhs) }),
            Ok(CType::Float) => Ok(NodeView::Cast { ctype: CType::Float, expr: Box::new(rhs) }),
            Ok(_) => Err(ErrorKind::Type),
            Err(e) => Err(e),
        },
        (Climber::Expr, Rule::Dereference) => match rhs.ctype().pointee() {
            Ok(ctype) => Ok(NodeView::Dereference { ctype, expr: Box::new(rhs) }),
            Err(e) => Err(e),
        },
        (Climber::Expr, Rule::Reference) => match rhs {
            NodeView::Dereference { expr, .. } => Ok(*expr),
            _ => Ok(
                NodeView::Reference {
                    ctype: CType::Ptr(Box::new(rhs.ctype())),
                    expr: Box::new(rhs),
                },
            ),
        },
        (Climber::Lval, Rule::Address) => Ok(
            NodeView::Address { ctype: rhs.ctype(), expr: Box::new(rhs) },
        ),
        _ => Err(ErrorKind::Other),
    }
}

/// An operator between its operands. In an expression, operands of two
/// types must be an `int` and a `float`, and the `int` is cast to `float`.
/// In a target they must be an `int` and a pointer, and the `int` is
/// retyped to the pointer. In a condition both are retyped to `float`, the
/// right one first. The result has the type of the left operand.
pub open spec fn infix(c: Climber, lhs: NodeView, op: Rule, rhs: NodeView) -> Result<
    NodeView,
    ErrorKind,
> {
    let l = lhs.ctype();
    let r = rhs.ctype();
    match c {
        Climber::Expr => if l == r {
            Ok(
                NodeView::BinaryOp {
                    ctype: l,
                    op: bin_op(op),
                    lhs: Box::new(lhs),
                    rhs: Box::new(rhs),
                },
            )
        } else if l is Int && r is Float {
            Ok(
                NodeView::BinaryOp {
                    ctype: CType::Float,
                    op: bin_op(op),
                    lhs: Box::new(lhs.cast(CType::Float)),
                    rhs: Box::new(rhs),
                },
            )
        } else if r is Int && l is Float {
            Ok(
                NodeView::BinaryOp {
                    ctype: l,
                    op: bin_op(op),
                    lhs: Box::new(lhs),
                    rhs: Box::new(rhs.cast(CType::Float)),
                },
            )
        } else {
            Err(ErrorKind::Type)
        },
        Climber::Lval => if l == r {
            Ok(
                NodeView::BinaryOp {
                    ctype: l,
                    op: bin_op(op),
                    lhs: Box::new(lhs),
                    rhs: Box::new(rhs),
                },
            )
        } else if l is Int && r is Ptr {
            match lhs.set_ctype(r) {
                Err(e) => Err(e),
                Ok(retyped) => Ok(
                    NodeView::BinaryOp {
                        ctype: retyped.ctype(),
                        op: bin_op(op),
                        lhs: Box::new(retyped),
                        rhs: Box::new(rhs),
                    },
                ),
            }
        } else if r is Int && l is Ptr {
            match rhs.set_ctype(l) {
                Err(e) => Err(e),
                Ok(retyped) => Ok(
                    NodeView::BinaryOp {
                        ctype: l,
                        op: bin_op(op),
                        lhs: Box::new(lhs),
                        rhs: Box::new(retyped),
                    },
                ),
            }
        } else {
            Err(ErrorKind::Type)
        },
        Climber::Cond => if l == r {
            Ok(
                NodeView::ConditionalOp {
                    ctype: l,
                    op: cond_op(op),
                    lhs: Box::new(lhs),
                    rhs: Box::new(rhs),
                },
            )
        } else {
            match rhs.set_ctype(CType::Float) {
                Err(e) => Err(e),
                Ok(right) => match lhs.set_ctype(CType::Float) {
                    Err(e) => Err(e),
                    Ok(left) => Ok(
                        NodeView::ConditionalOp {
                            ctype: left.ctype(),
                            op: cond_op(op),
                            lhs: Box::new(left),
                            rhs: Box::new(right),
                        },
                    ),
                },
            }
        },
    }
}

/// The sum that indexing computes: the base plus four times the index, the
/// `4` retyped to the type of the base.
pub open spec fn array_sum(lhs: NodeView, index: NodeView) -> Result<NodeView, ErrorKind> {
    match (NodeView::IntLit { ctype: CType::Int, val: 4 }).set_ctype(lhs.ctype()) {
        Err(e) => Err(e),
        Ok(four) => Ok(
            NodeView::BinaryOp {
                ctype: lhs.ctype(),
                op: BinOp::Plus,
                lhs: Box::new(lhs),
                rhs: Box::new(
                    NodeView::BinaryOp {
                        ctype: index.ctype(),
                        op: BinOp::Times,
                        lhs: Box::new(index),
                        rhs: Box::new(four),
                    },
                ),
            },
        ),
    }
}

/// What the tokens of one grammar build: an operand, then operators and
/// operands in turn, grouped by binding power.
pub open spec fn climbed(c: Climber, pairs: Seq<Pair>, t: SymTableView) -> Result<
    NodeView,
    ErrorKind,
>
    decreases pairs, pairs.len() + 1, 0int,
{
    match climb(c, pairs, 0, 0, t) {
        Ok((node, _)) => Ok(node),
        Err(e) => Err(e),
    }
}

/// An operand at `pos` with the operators after it that bind tighter than
/// `rbp`, and the place where it ends.
pub open spec fn climb(c: Climber, pairs: Seq<Pair>, pos: int, rbp: u32, t: SymTableView) -> Result<
    (NodeView, int),
    ErrorKind,
>
    decreases pairs, pairs.len() - pos, 1int,
{
    if pos < 0 || pos >= pairs.len() {
        Err(ErrorKind::PairsNext)
    } else {
        match operator(c, pairs[pos].rule) {
            Some((Affix::Prefix, prec)) => match climb(c, pairs, pos + 1, (prec - 1) as u32, t) {
                Err(e) => Err(e),
                Ok((rhs, next)) => match prefix(c, pairs[pos], rhs) {
                    Err(e) => Err(e),
                    Ok(node) => if pos < next <= pairs.len() {
                        climb_loop(c, pairs, node, next, rbp, t)
                    } else {
                        Err(ErrorKind::Other)
                    },
                },
            },
            Some(_) => Err(ErrorKind::Other),
            None => match primary(c, pairs[pos], t) {
                Err(e) => Err(e),
                Ok(node) => climb_loop(c, pairs, node, pos + 1, rbp, t),
            },
        }
    }
}

/// An operand `lhs` that ends at `pos`, extended by the operators from
/// `pos` on that bind tighter than `rbp`.
pub open spec fn climb_loop(
    c: Climber,
    pairs: Seq<Pair>,
    lhs: NodeView,
    pos: int,
    rbp: u32,
    t: SymTableView,
) -> Result<(NodeView, int), ErrorKind>
    decreases pairs, pairs.len() - pos, 0int,
{
    if pos < 0 || pos >= pairs.len() {
        Ok((lhs, pos))
    } else {
        match operator(c, pairs[pos].rule) {
            None => Err(ErrorKind::Other),
            Some((affix, prec)) => if rbp < prec {
                match affix {
                    Affix::Infix => match climb(c, pairs, pos + 1, prec, t) {
                        Err(e) => Err(e),
                        Ok((rhs, next)) => match infix(c, lhs, pairs[pos].rule, rhs) {
                            Err(e) => Err(e),
                            Ok(node) => if pos < next <= pairs.len() {
                                climb_loop(c, pairs, node, next, rbp, t)
                            } else {
                                Err(ErrorKind::Other)
                            },
                        },
                    },
                    Affix::Postfix => match postfix(c, lhs, pairs[pos], t) {
                        Err(e) => Err(e),
                        Ok(node) => climb_loop(c, pairs, node, pos + 1, rbp, t),
                    },
                    Affix::Prefix => Err(ErrorKind::Other),
                }
            } else {
                Ok((lhs, pos))
            },
        }
    }
}

/// An operand. In an expression: an expression in brackets, a call, a
/// variable, an integer or a float literal. In a condition: an expression.
/// In a target: a target in brackets, a variable or an integer literal.
pub open spec fn primary(c: Climber, pair: Pair, t: SymTableView) -> Result<NodeView, ErrorKind>
    decreases pair, 0int, 0int,
{
    match (c, pair.rule) {
        (Climber::Expr, Rule::Expr) | (Climber::Cond, Rule::Expr) => climbed(
            Climber::Expr,
            pair.inner@,
            t,
        ),
        (Climber::Lval, Rule::Lval) => climbed(Climber::Lval, pair.inner@, t),
        (Climber::Expr, Rule::Call) => if pair.inner@.len() == 0 {
            Err(ErrorKind::PairsNext)
        } else {
            call_node(pair.inner@[0], t)
        },
        (Climber::Expr, Rule::Ident) | (Climber::Lval, Rule::Ident) => var_node(pair.text@, t),
        (Climber::Expr, Rule::IntLit) | (Climber::Lval, Rule::IntLit) => match parse_int(
            pair.text@,
        ) {
            Some(val) => Ok(NodeView::IntLit { ctype: CType::Int, val }),
            None => Err(ErrorKind::Other),
        },
        (Climber::Expr, Rule::FloatLit) => Ok(
            NodeView::FloatLit { ctype: CType::Float, val: pair.text@ },
        ),
        _ => Err(ErrorKind::Other),
    }
}

/// Indexing, the one operator after its operand: in an expression the
/// value at the sum, which must be a pointer; in a target the memory at
/// the sum.
pub open spec fn postfix(c: Climber, lhs: NodeView, op: Pair, t: SymTableView) -> Result<
    NodeView,
    ErrorKind,
>
    decreases op, 0int, 0int,
{
    if (c == Climber::Expr || c == Climber::Lval) && op.rule is ArrayExpr {
        if op.inner@.len() == 0 {
            Err(ErrorKind::PairsNext)
        } else {
            match climbed(Climber::Expr, op.inner@[0].inner@, t) {
                Err(e) => Err(e),
                Ok(index) => match array_sum(lhs, index) {
                    Err(e) => Err(e),
                    Ok(sum) => if c == Climber::Expr {
                        match sum.ctype().pointee() {
                            Err(e) => Err(e),
                            Ok(ctype) => Ok(NodeView::Dereference { ctype, expr: Box::new(sum) }),
                        }
                    } else {
                        Ok(NodeView::Address { ctype: sum.ctype(), expr: Box::new(sum) })
                    },
                },
            }
        }
    } else {
        Err(ErrorKind::Other)
    }
}

/// The first `k` arguments of a call, each retyped to the type of its
/// parameter; `pairs` holds the name of the function, then the arguments.
pub open spec fn call_arguments(pairs: Seq<Pair>, params: Seq<CType>, k: int, t: SymTableView) -> Result<
    Seq<NodeView>,
    ErrorKind,
>
    decreases pairs, k, 0int,
{
    if k <= 0 || k >= pairs.len() {
        Ok(Seq::empty())
    } else {
        match call_arguments(pairs, params, k - 1, t) {
            Err(e) => Err(e),
            Ok(done) => match climbed(Climber::Expr, pairs[k].inner@, t) {
                Err(e) => Err(e),
                Ok(arg) => match arg.set_ctype(params[k - 1]) {
                    Err(e) => Err(e),
                    Ok(retyped) => Ok(done.push(retyped)),
                },
            },
        }
    }
}

/// A call of a declared function: as many arguments as it has parameters,
/// each retyped to its parameter's type; the call has the function's
/// return type. The arguments that have a parameter are read before their
/// number is held against the parameters'.
pub open spec fn func_call(pair: Pair, t: SymTableView) -> Result<NodeView, ErrorKind>
    decreases pair, 0int, 1int,
{
    if pair.inner@.len() == 0 {
        Err(ErrorKind::PairsNext)
    } else {
        let ident = pair.inner@[0].text@;
        match t.get_symbol(ident) {
            Err(e) => Err(e),
            Ok(symbol) => match symbol.arguments() {
                Err(e) => Err(e),
                Ok(params) => {
                    let given = pair.inner@.len() - 1;
                    let read = if given < params.len() {
                        given
                    } else {
                        params.len() as int
                    };
                    match call_arguments(pair.inner@, params, read, t) {
                        Err(e) => Err(e),
                        Ok(arguments) => if given != params.len() {
                            Err(ErrorKind::Type)
                        } else {
                            match t.get_scope(ident) {
                                Err(e) => Err(e),
                                Ok(scope) => Ok(
                                    NodeView::Call {
                                        ctype: symbol.ctype(),
                                        ident,
                                        scope,
                                        arguments,
                                    },
                                ),
                            }
                        },
                    }
                },
            },
        }
    }
}

/// A call statement or expression: a call of a function, or one of the
/// four built-in calls. `read` takes a variable and has its type; `print`
/// has the type of what it prints; `malloc` is a pointer to `void`; `free`
/// needs a pointer.
pub open spec fn call_node(pair: Pair, t: SymTableView) -> Result<NodeView, ErrorKind>
    decreases pair, 0int, 2int,
{
    match pair.rule {
        Rule::FuncCall => func_call(pair, t),
        Rule::ReadStmt => if pair.inner@.len() == 0 {
            Err(ErrorKind::PairsNext)
        } else {
            match var_node(pair.inner@[0].text@, t) {
                Err(e) => Err(e),
                Ok(var) => Ok(NodeView::Read { ctype: var.ctype(), var: Box::new(var) }),
            }
        },
        Rule::PrintStmt | Rule::MallocStmt | Rule::FreeStmt => if pair.inner@.len() == 0 {
            Err(ErrorKind::PairsNext)
        } else {
            match climbed(Climber::Expr, pair.inner@[0].inner@, t) {
                Err(e) => Err(e),
                Ok(expr) => match pair.rule {
                    Rule::PrintStmt => Ok(
                        NodeView::Write { ctype: expr.ctype(), expr: Box::new(expr) },
                    ),
                    Rule::MallocStmt => Ok(
                        NodeView::Malloc {
                            ctype: CType::Ptr(Box::new(CType::Void)),
                            expr: Box::new(expr),
                        },
                    ),
                    _ => if expr.ctype() is Ptr {
                        Ok(NodeView::Free { expr: Box::new(expr) })
                    } else {
                        Err(ErrorKind::Type)
                    },
                },
            }
        },
        _ => Err(ErrorKind::Other),
    }
}

/// An arithmetic node or a comparison over operands of two types, or of
/// one mutable type, has a mutable type, and both its operands have it.
pub proof fn lemma_infix_typed(c: Climber, lhs: NodeView, op: Rule, rhs: NodeView)
    requires
        !(lhs.ctype() == rhs.ctype() && !lhs.ctype().mutable()),
    ensures
        match infix(c, lhs, op, rhs) {
            Ok(NodeView::BinaryOp { ctype, lhs: l, rhs: r, .. }) => ctype.mutable() && l.ctype()
                == ctype && r.ctype() == ctype,
            Ok(NodeView::ConditionalOp { ctype, lhs: l, rhs: r, .. }) => ctype.mutable()
                && l.ctype() == ctype && r.ctype() == ctype,
            Ok(_) => false,
            Err(_) => true,
        },
{
    crate::ast::node::lemma_set_ctype(lhs, rhs.ctype());
    crate::ast::node::lemma_set_ctype(rhs, lhs.ctype());
    crate::ast::node::lemma_set_ctype(lhs, CType::Float);
    crate::ast::node::lemma_set_ctype(rhs, CType::Float);
}

/// Over operands of one type, an arithmetic node or a comparison has that
/// type, and its operands stay as they are.
pub proof fn lemma_infix_same(c: Climber, lhs: NodeView, op: Rule, rhs: NodeView)
    requires
        lhs.ctype() == rhs.ctype(),
    ensures
        match infix(c, lhs, op, rhs) {
            Ok(NodeView::BinaryOp { ctype, lhs: l, rhs: r, .. }) => c != Climber::Cond && ctype
                == lhs.ctype() && *l == lhs && *r == rhs,
            Ok(NodeView::ConditionalOp { ctype, lhs: l, rhs: r, .. }) => c == Climber::Cond
                && ctype == lhs.ctype() && *l == lhs && *r == rhs,
            _ => false,
        },
{
}

/// A negation has the type of its operand; a cast is to `int` or `float`;
/// a dereference has the type that its operand points to; the address of
/// anything but a dereference is a pointer to its type.
pub proof fn lemma_prefix_typed(c: Climber, op: Pair, rhs: NodeView)
    ensures
        match prefix(c, op, rhs) {
            Ok(n) => match op.rule {
                Rule::Neg => n.ctype() == rhs.ctype(),
                Rule::BaseType => n.ctype() is Int || n.ctype() is Float,
                Rule::Dereference => rhs.ctype() == CType::Ptr(Box::new(n.ctype())),
                Rule::Reference => rhs is Dereference || n.ctype() == CType::Ptr(
                    Box::new(rhs.ctype()),
                ),
                _ => true,
            },
            Err(_) => true,
        },
{
}

/// The outcome of a step of the climb: the model of the node and the place
/// where it ends, or the kind of the error.
pub open spec fn stepped(r: Result<(Node, usize), Error>) -> Result<(NodeView, int), ErrorKind> {
    match r {
        Ok((node, next)) => Ok((node@, next as int)),
        Err(e) => Err(e.kind()),
    }
}

fn operator_of(c: Climber, rule: Rule) -> (r: Option<(Affix, u32)>)
    ensures
        r == operator(c, rule),
{
    match c {
        Climber::Expr => match rule {
            Rule::Plus | Rule::Minus => Some((Affix::Infix, 20)),
            Rule::Times | Rule::Divide => Some((Affix::Infix, 30)),
            Rule::Neg | Rule::BaseType | Rule::Dereference | Rule::Reference => Some(
                (Affix::Prefix, 40),
            ),
            Rule::ArrayExpr => Some((Affix::Postfix, 50)),
            _ => None,
        },
        Climber::Cond => match rule {
            Rule::Equal | Rule::NotEqual => Some((Affix::Infix, 20)),
            Rule::Less | Rule::LessEqual | Rule::Greater | Rule::GreaterEqual => Some(
                (Affix::Infix, 30),
            ),
            _ => None,
        },
        Climber::Lval => match rule {
            Rule::Plus | Rule::Minus => Some((Affix::Infix, 20)),
            Rule::Times | Rule::Divide => Some((Affix::Infix, 30)),
            Rule::Neg | Rule::BaseType | Rule::Address => Some((Affix::Prefix, 40)),
            Rule::ArrayExpr => Some((Affix::Postfix, 50)),
            _ => None,
        },
    }
}

/// Builds the use of a variable.
pub fn from_ident(name: &String, symtable: &SymTable) -> (r: Result<Node, Error>)
    requires
        symtable.wf(),
    ensures
        outcome(r) == var_node(name@, symtable@),
{
    let symbol = match symtable.get_symbol(name) {
        Ok(s) => s,
        Err(e) => {
            return Err(e);
        },
    };
    let scope = match symtable.get_scope(name) {
        Ok(s) => s,
        Err(e) => {
            return Err(e);
        },
    };
    Ok(Node::Var { ctype: symbol.ctype(), ident: name.clone(), scope })
}

fn map_prefix(c: Climber, op: &Pair, rhs: Node) -> (r: Result<Node, Error>)
    ensures
        outcome(r) == prefix(c, *op, rhs@),
{
    match (c, op.rule) {
        (Climber::Expr, Rule::Neg) | (Climber::Lval, Rule::Neg) => Ok(
            Node::UnaryOp { ctype: rhs.ctype(), expr: Box::new(rhs) },
        ),
        (Climber::Expr, Rule::BaseType) | (Climber::Lval, Rule::BaseType) => {
            match CType::from_base_type(&op.inner) {
                Ok(CType::Int) => Ok(Node::Cast { ctype: CType::Int, expr: Box::new(rhs) }),
                Ok(CType::Float) => Ok(Node::Cast { ctype: CType::Float, expr: Box::new(rhs) }),
                Ok(_) => Err(Error::Type),
                Err(e) => Err(e),
            }
        },
        (Climber::Expr, Rule::Dereference) => {
            match rhs.ctype().dereference() {
                Ok(ctype) => Ok(Node::Dereference { ctype, expr: Box::new(rhs) }),
                Err(e) => Err(e),
            }
        },
        (Climber::Expr, Rule::Reference) => {
            match rhs {
                Node::Dereference { expr, .. } => Ok(*expr),
                other => Ok(
                    Node::Reference {
                        ctype: CType::Ptr(Box::new(other.ctype())),
                        expr: Box::new(other),
                    },
                ),
            }
        },
        (Climber::Lval, Rule::Address) => Ok(
            Node::Address { ctype: rhs.ctype(), expr: Box::new(rhs) },
        ),
        _ => Err(Error::Other(String::from_str("climb: operator cannot stand before an operand"))),
    }
}

fn op_of(rule: Rule) -> (op: BinOp)
    ensures
        op == bin_op(rule),
{
    match rule {
        Rule::Plus => BinOp::Plus,
        Rule::Minus => BinOp::Minus,
        Rule::Times => BinOp::Times,
        _ => BinOp::Divide,
    }
}

fn cond_of(rule: Rule) -> (op: CondOp)
    ensures
        op == cond_op(rule),
{
    match rule {
        Rule::Equal => CondOp::Equal,
        Rule::NotEqual => CondOp::NotEqual,
        Rule::Less => CondOp::Less,
        Rule::LessEqual => CondOp::LessEqual,
        Rule::Greater => CondOp::Greater,
        _ => CondOp::GreaterEqual,
    }
}

fn map_infix(c: Climber, lhs: Node, op: Rule, rhs: Node) -> (r: Result<Node, Error>)
    ensures
        outcome(r) == infix(c, lhs@, op, rhs@),
{
    let l = lhs.ctype();
    let r = rhs.ctype();
    let mut lhs = lhs;
    let mut rhs = rhs;
    match c {
        Climber::Expr => {
            if !l.same(&r) {
                match (&l, &r) {
                    (CType::Int, CType::Float) => {
                        lhs = lhs.cast(&CType::Float);
                    },
                    (CType::Float, CType::Int) => {
                        rhs = rhs.cast(&CType::Float);
                    },
                    _ => {
                        return Err(Error::Type);
                    },
                }
            }
            Ok(
                Node::BinaryOp {
                    ctype: lhs.ctype(),
                    op: op_of(op),
                    lhs: Box::new(lhs),
                    rhs: Box::new(rhs),
                },
            )
        },
        Climber::Lval => {
            if !l.same(&r) {
                match (&l, &r) {
                    (CType::Int, CType::Ptr(_)) => {
                        lhs = match lhs.set_ctype(&r) {
                            Ok(n) => n,
                            Err(e) => {
                                return Err(e);
                            },
                        };
                    },
                    (CType::Ptr(_), CType::Int) => {
                        rhs = match rhs.set_ctype(&l) {
                            Ok(n) => n,
                            Err(e) => {
                                return Err(e);
                            },
                        };
                    },
                    _ => {
                        return Err(Error::Type);
                    },
                }
            }
            Ok(
                Node::BinaryOp {
                    ctype: lhs.ctype(),
                    op: op_of(op),
                    lhs: Box::new(lhs),
                    rhs: Box::new(rhs),
                },
            )
        },
        Climber::Cond => {
            if !l.same(&r) {
                rhs = match rhs.set_ctype(&CType::Float) {
                    Ok(n) => n,
                    Err(e) => {
                        return Err(e);
                    },
                };
                lhs = match lhs.set_ctype(&CType::Float) {
                    Ok(n) => n,
                    Err(e) => {
                        return Err(e);
                    },
                };
            }
            Ok(
                Node::ConditionalOp {
                    ctype: lhs.ctype(),
                    op: cond_of(op),
                    lhs: Box::new(lhs),
                    rhs: Box::new(rhs),
                },
            )
        },
    }
}

/// Builds the sum that indexing computes.
fn resolve_array_expr(lhs: Node, index: Node) -> (r: Result<Node, Error>)
    ensures
        outcome(r) == array_sum(lhs@, index@),
{
    let base = lhs.ctype();
    let four = match (Node::IntLit { ctype: CType::Int, val: 4 }).set_ctype(&base) {
        Ok(n) => n,
        Err(e) => {
            return Err(e);
        },
    };
    let ghost scaled = NodeView::BinaryOp {
        ctype: index@.ctype(),
        op: BinOp::Times,
        lhs: Box::new(index@),
        rhs: Box::new(four@),
    };
    let product = Node::BinaryOp {
        ctype: index.ctype(),
        op: BinOp::Times,
        lhs: Box::new(index),
        rhs: Box::new(four),
    };
    assert(product@ == scaled);
    Ok(Node::BinaryOp { ctype: base, op: BinOp::Plus, rhs: Box::new(product), lhs: Box::new(lhs) })
}

fn map_postfix(c: Climber, lhs: Node, op: &Pair, symtable: &SymTable) -> (r: Result<Node, Error>)
    requires
        symtable.wf(),
    ensures
        outcome(r) == postfix(c, lhs@, *op, symtable@),
    decreases *op, 0int, 0int,
{
    let indexes = match (c, op.rule) {
        (Climber::Expr, Rule::ArrayExpr) | (Climber::Lval, Rule::ArrayExpr) => true,
        _ => false,
    };
    if !indexes {
        return Err(Error::Other(String::from_str("climb: expected array_expr, found other")));
    }
    if op.inner.len() == 0 {
        return Err(Error::PairsNext);
    }
    proof {
        assert(decreases_to!(*op => op.inner));
        assert(decreases_to!(op.inner => op.inner[0]));
        assert(decreases_to!(op.inner[0] => op.inner[0].inner));
        assert(decreases_to!(op.inner[0].inner => op.inner[0].inner@));
    }
    let index = match from_expr(&op.inner[0].inner, symtable) {
        Ok(n) => n,
        Err(e) => {
            return Err(e);
        },
    };
    let sum = match resolve_array_expr(lhs, index) {
        Ok(n) => n,
        Err(e) => {
            return Err(e);
        },
    };
    match c {
        Climber::Expr => match sum.ctype().dereference() {
            Ok(ctype) => Ok(Node::Dereference { ctype, expr: Box::new(sum) }),
            Err(e) => Err(e),
        },
        _ => Ok(Node::Address { ctype: sum.ctype(), expr: Box::new(sum) }),
    }
}

fn map_primary(c: Climber, pair: &Pair, symtable: &SymTable) -> (r: Result<Node, Error>)
    requires
        symtable.wf(),
    ensures
        outcome(r) == primary(c, *pair, symtable@),
    decreases *pair, 0int, 0int,
{
    proof {
        assert(decreases_to!(*pair => pair.inner));
        assert(decreases_to!(pair.inner => pair.inner@));
    }
    match (c, pair.rule) {
        (Climber::Expr, Rule::Expr) | (Climber::Cond, Rule::Expr) => from_expr(
            &pair.inner,
            symtable,
        ),
        (Climber::Lval, Rule::Lval) => from_lval(&pair.inner, symtable),
        (Climber::Expr, Rule::Call) => {
            if pair.inner.len() == 0 {
                return Err(Error::PairsNext);
            }
            proof {
                assert(decreases_to!(pair.inner => pair.inner[0]));
            }
            super::call::from_pair_to_node(&pair.inner[0], symtable)
        },
        (Climber::Expr, Rule::Ident) | (Climber::Lval, Rule::Ident) => from_ident(
            &pair.text,
            symtable,
        ),
        (Climber::Expr, Rule::IntLit) | (Climber::Lval, Rule::IntLit) => {
            match parse_i32(pair.text.as_str()) {
                Some(val) => Ok(Node::IntLit { ctype: CType::Int, val }),
                None => Err(
                    Error::Other(String::from_str("climb: integer literal out of range")),
                ),
            }
        },
        (Climber::Expr, Rule::FloatLit) => Ok(
            Node::FloatLit { ctype: CType::Float, val: pair.text.clone() },
        ),
        _ => Err(Error::Other(String::from_str("climb: expected an operand, found other"))),
    }
}

fn parse_operand(c: Climber, pairs: &Vec<Pair>, pos: usize, rbp: u32, symtable: &SymTable) -> (r:
    Result<(Node, usize), Error>)
    requires
        symtable.wf(),
    ensures
        stepped(r) == climb(c, pairs@, pos as int, rbp, symtable@),
        r matches Ok((_, next)) ==> pos < next <= pairs@.len(),
    decreases pairs@, pairs@.len() - pos, 1int,
{
    if pos >= pairs.len() {
        return Err(Error::PairsNext);
    }
    let pair = &pairs[pos];
    match operator_of(c, pair.rule) {
        Some((Affix::Prefix, prec)) => {
            let (rhs, next) = match parse_operand(c, pairs, pos + 1, prec - 1, symtable) {
                Ok(v) => v,
                Err(e) => {
                    return Err(e);
                },
            };
            let node = match map_prefix(c, pair, rhs) {
                Ok(n) => n,
                Err(e) => {
                    return Err(e);
                },
            };
            parse_operators(c, pairs, node, next, rbp, symtable)
        },
        Some(_) => Err(Error::Other(String::from_str("climb: expected an operand, found an operator"))),
        None => {
            proof {
                assert(decreases_to!(pairs@ => pairs@[pos as int]));
            }
            let node = match map_primary(c, pair, symtable) {
                Ok(n) => n,
                Err(e) => {
                    return Err(e);
                },
            };
            parse_operators(c, pairs, node, pos + 1, rbp, symtable)
        },
    }
}

fn parse_operators(
    c: Climber,
    pairs: &Vec<Pair>,
    lhs: Node,
    pos: usize,
    rbp: u32,
    symtable: &SymTable,
) -> (r: Result<(Node, usize), Error>)
    requires
        symtable.wf(),
        pos <= pairs@.len(),
    ensures
        stepped(r) == climb_loop(c, pairs@, lhs@, pos as int, rbp, symtable@),
        r matches Ok((_, next)) ==> pos <= next <= pairs@.len(),
    decreases pairs@, pairs@.len() - pos, 0int,
{
    if pos >= pairs.len() {
        return Ok((lhs, pos));
    }
    let pair = &pairs[pos];
    match operator_of(c, pair.rule) {
        None => Err(Error::Other(String::from_str("climb: expected an operator, found an operand"))),
        Some((affix, prec)) => {
            if rbp < prec {
                match affix {
                    Affix::Infix => {
                        let (rhs, next) = match parse_operand(c, pairs, pos + 1, prec, symtable) {
                            Ok(v) => v,
                            Err(e) => {
                                return Err(e);
                            },
                        };
                        let node = match map_infix(c, lhs, pair.rule, rhs) {
                            Ok(n) => n,
                            Err(e) => {
                                return Err(e);
                            },
                        };
                        parse_operators(c, pairs, node, next, rbp, symtable)
                    },
                    Affix::Postfix => {
                        proof {
                            assert(decreases_to!(pairs@ => pairs@[pos as int]));
                        }
                        let node = match map_postfix(c, lhs, pair, symtable) {
                            Ok(n) => n,
                            Err(e) => {
                                return Err(e);
                            },
                        };
                        parse_operators(c, pairs, node, pos + 1, rbp, symtable)
                    },
                    Affix::Prefix => Err(
                        Error::Other(
                            String::from_str("climb: expected postfix or infix, found prefix"),
                        ),
                    ),
                }
            } else {
                Ok((lhs, pos))
            }
        },
    }
}

fn parse(c: Climber, pairs: &Vec<Pair>, symtable: &SymTable) -> (r: Result<Node, Error>)
    requires
        symtable.wf(),
    ensures
        outcome(r) == climbed(c, pairs@, symtable@),
    decreases pairs@, pairs@.len() + 1, 0int,
{
    match parse_operand(c, pairs, 0, 0, symtable) {
        Ok((node, _)) => Ok(node),
        Err(e) => Err(e),
    }
}

/// Builds the tree of an expression from its tokens.
pub fn from_expr(pairs: &Vec<Pair>, symtable: &SymTable) -> (r: Result<Node, Error>)
    requires
        symtable.wf(),
    ensures
        outcome(r) == climbed(Climber::Expr, pairs@, symtable@),
    decreases pairs@, pairs@.len() + 2, 0int,
{
    parse(Climber::Expr, pairs, symtable)
}

/// Builds the tree of a condition from its tokens.
pub fn from_cond(pairs: &Vec<Pair>, symtable: &SymTable) -> (r: Result<Node, Error>)
    requires
        symtable.wf(),
    ensures
        outcome(r) == climbed(Climber::Cond, pairs@, symtable@),
    decreases pairs@, pairs@.len() + 2, 0int,
{
    parse(Climber::Cond, pairs, symtable)
}

/// Builds the tree of an assignment target from its tokens.
pub fn from_lval(pairs: &Vec<Pair>, symtable: &SymTable) -> (r: Result<Node, Error>)
    requires
        symtable.wf(),
    ensures
        outcome(r) == climbed(Climber::Lval, pairs@, symtable@),
    decreases pairs@, pairs@.len() + 2, 0int,
{
    parse(Climber::Lval, pairs, symtable)
}

} // verus!
