use super::call::from_pair_to_node;
use super::climbers::call_node;
use super::climbers::climbed;
use super::climbers::from_cond;
use super::climbers::from_expr;
use super::climbers::from_lval;
use super::climbers::Climber;
use super::node::node_views;
use super::node::Node;
use super::node::NodeView;
use crate::error::outcome;
use crate::error::plain;
use crate::error::Error;
use crate::error::ErrorKind;
use crate::parser::Pair;
use crate::parser::Rule;
use crate::symtable::ctype::base_type;
use crate::symtable::entry::EntryView;
use crate::symtable::entry::SymbolTypeView;
use crate::symtable::object::SymTableView;
use crate::symtable::CType;
use crate::symtable::Entry;
use crate::symtable::SymTable;
use crate::symtable::SymbolType;
use vstd::prelude::*;

verus! {

/// A type and a name, as a declaration writes them.
pub open spec fn declaration(pair: Pair) -> Result<(CType, Seq<char>), ErrorKind> {
    if pair.inner@.len() == 0 {
        Err(ErrorKind::PairsNext)
    } else {
        match base_type(pair.inner@[0].inner@) {
            Err(e) => Err(e),
            Ok(ctype) => if pair.inner@.len() < 2 {
                Err(ErrorKind::PairsNext)
            } else {
                Ok((ctype, pair.inner@[1].text@))
            },
        }
    }
}

/// The first `k` parameters of a list.
pub open spec fn params_upto(pairs: Seq<Pair>, k: int) -> Result<
    Seq<(CType, Seq<char>)>,
    ErrorKind,
>
    decreases k,
{
    if k <= 0 {
        Ok(Seq::empty())
    } else {
        match params_upto(pairs, k - 1) {
            Err(e) => Err(e),
            Ok(done) => match declaration(pairs[k - 1]) {
                Err(e) => Err(e),
                Ok(p) => Ok(done.push(p)),
            },
        }
    }
}

/// The parameters of a function: each with its type and its name.
pub open spec fn params_of(pair: Pair) -> Result<Seq<(CType, Seq<char>)>, ErrorKind> {
    if pair.rule != Rule::Params {
        Err(ErrorKind::Other)
    } else {
        params_upto(pair.inner@, pair.inner@.len() as int)
    }
}

/// The types of a list of parameters.
pub open spec fn param_types(params: Seq<(CType, Seq<char>)>) -> Seq<CType> {
    Seq::new(params.len(), |i: int| params[i].0)
}

/// An assignment. The target is read first; what it stores is its type,
/// or, for a target in memory, what its address points to. A value of
/// another type is cast to the stored type where that is `int` or
/// `float`, and retyped to it otherwise.
pub open spec fn assignment(inner: Seq<Pair>, t: SymTableView) -> Result<NodeView, ErrorKind> {
    if inner.len() == 0 {
        Err(ErrorKind::PairsNext)
    } else {
        match climbed(Climber::Lval, inner[0].inner@, t) {
            Err(e) => Err(e),
            Ok(lhs) => match lhs.strip_ctype() {
                Err(e) => Err(e),
                Ok(ctype) => if inner.len() < 2 {
                    Err(ErrorKind::PairsNext)
                } else {
                    match climbed(Climber::Expr, inner[1].inner@, t) {
                        Err(e) => Err(e),
                        Ok(rhs) => if rhs.ctype() == ctype {
                            Ok(
                                NodeView::Assign {
                                    ctype,
                                    lhs: Box::new(lhs),
                                    rhs: Box::new(rhs),
                                },
                            )
                        } else if ctype is Int || ctype is Float {
                            Ok(
                                NodeView::Assign {
                                    ctype,
                                    lhs: Box::new(lhs),
                                    rhs: Box::new(rhs.cast(ctype)),
                                },
                            )
                        } else {
                            match rhs.set_ctype(ctype) {
                                Err(e) => Err(e),
                                Ok(retyped) => Ok(
                                    NodeView::Assign {
                                        ctype,
                                        lhs: Box::new(lhs),
                                        rhs: Box::new(retyped),
                                    },
                                ),
                            }
                        },
                    }
                },
            },
        }
    }
}

/// A return from the function that the current scope belongs to. A value
/// is retyped to the function's return type; without a value the return
/// type must be `void`.
pub open spec fn return_node(inner: Seq<Pair>, t: SymTableView) -> Result<NodeView, ErrorKind> {
    match t.current().get_scope_ctype() {
        Err(e) => Err(e),
        Ok(ctype) => if inner.len() > 0 {
            match climbed(Climber::Expr, inner[0].inner@, t) {
                Err(e) => Err(e),
                Ok(value) => match value.set_ctype(ctype) {
                    Err(e) => Err(e),
                    Ok(expr) => match t.current().get_function() {
                        Err(e) => Err(e),
                        Ok(function) => Ok(
                            NodeView::Return { ctype, function, expr: Box::new(expr) },
                        ),
                    },
                },
            }
        } else if !(ctype is Void) {
            Err(ErrorKind::Type)
        } else {
            match t.current().get_function() {
                Err(e) => Err(e),
                Ok(function) => Ok(
                    NodeView::Return { ctype, function, expr: Box::new(NodeView::Empty) },
                ),
            }
        },
    }
}

/// A branch: a condition, the statements taken when it holds and, where
/// there are any, those taken when it does not.
pub open spec fn if_node(pair: Pair, t: SymTableView) -> Result<NodeView, ErrorKind>
    decreases pair, 0int,
{
    if pair.inner@.len() == 0 {
        Err(ErrorKind::PairsNext)
    } else {
        match climbed(Climber::Cond, pair.inner@[0].inner@, t) {
            Err(e) => Err(e),
            Ok(cond) => if pair.inner@.len() < 2 {
                Err(ErrorKind::PairsNext)
            } else {
                match statements(pair.inner@[1], t) {
                    Err(e) => Err(e),
                    Ok(lhs) => if pair.inner@.len() < 3 {
                        Ok(
                            NodeView::IfElse {
                                cond: Box::new(cond),
                                lhs: Box::new(lhs),
                                rhs: Box::new(NodeView::Empty),
                            },
                        )
                    } else {
                        match statements(pair.inner@[2], t) {
                            Err(e) => Err(e),
                            Ok(rhs) => Ok(
                                NodeView::IfElse {
                                    cond: Box::new(cond),
                                    lhs: Box::new(lhs),
                                    rhs: Box::new(rhs),
                                },
                            ),
                        }
                    },
                }
            },
        }
    }
}

/// A loop: a condition and the statements repeated while it holds.
pub open spec fn while_node(pair: Pair, t: SymTableView) -> Result<NodeView, ErrorKind>
    decreases pair, 0int,
{
    if pair.inner@.len() == 0 {
        Err(ErrorKind::PairsNext)
    } else {
        match climbed(Climber::Cond, pair.inner@[0].inner@, t) {
            Err(e) => Err(e),
            Ok(cond) => if pair.inner@.len() < 2 {
                Err(ErrorKind::PairsNext)
            } else {
                match statements(pair.inner@[1], t) {
                    Err(e) => Err(e),
                    Ok(body) => Ok(
                        NodeView::While { cond: Box::new(cond), statements: Box::new(body) },
                    ),
                }
            },
        }
    }
}

/// One statement: a call, an assignment, a return, a branch or a loop.
pub open spec fn statement(pair: Pair, t: SymTableView) -> Result<NodeView, ErrorKind>
    decreases pair, 1int,
{
    match pair.rule {
        Rule::Call => if pair.inner@.len() == 0 {
            Err(ErrorKind::Other)
        } else {
            call_node(pair.inner@[0], t)
        },
        Rule::AssignStmt => assignment(pair.inner@, t),
        Rule::ReturnStmt => return_node(pair.inner@, t),
        Rule::IfStmt => if_node(pair, t),
        Rule::WhileStmt => while_node(pair, t),
        _ => Err(ErrorKind::Other),
    }
}

/// The first `k` statements of a list.
pub open spec fn statements_upto(pairs: Seq<Pair>, k: int, t: SymTableView) -> Result<
    Seq<NodeView>,
    ErrorKind,
>
    decreases pairs, k,
{
    if k <= 0 || k > pairs.len() {
        Ok(Seq::empty())
    } else {
        match statements_upto(pairs, k - 1, t) {
            Err(e) => Err(e),
            Ok(done) => match statement(pairs[k - 1], t) {
                Err(e) => Err(e),
                Ok(s) => Ok(done.push(s)),
            },
        }
    }
}

/// A list of statements: one at least.
pub open spec fn statements(pair: Pair, t: SymTableView) -> Result<NodeView, ErrorKind>
    decreases pair, 2int,
{
    match statements_upto(pair.inner@, pair.inner@.len() as int, t) {
        Err(e) => Err(e),
        Ok(list) => if list.len() == 0 {
            Err(ErrorKind::Other)
        } else {
            Ok(NodeView::StatementList { statements: list })
        },
    }
}

/// The table after the parameters from `pos` on were declared as
/// arguments.
pub open spec fn with_params(params: Seq<(CType, Seq<char>)>, pos: int, t: SymTableView) -> (
    SymTableView,
    Result<(), ErrorKind>,
)
    decreases params.len() - pos,
{
    if pos < 0 || pos >= params.len() {
        (t, Ok(()))
    } else {
        let (next, r) = t.add_symbol(params[pos].0, params[pos].1, SymbolTypeView::Argument);
        if r is Err {
            (next, r)
        } else {
            with_params(params, pos + 1, next)
        }
    }
}

/// The table and the body after the members of a function from `pos` on: a
/// variable declaration declares a local, a list of statements becomes
/// the body.
pub open spec fn members(pairs: Seq<Pair>, pos: int, t: SymTableView, body: NodeView) -> (
    SymTableView,
    Result<NodeView, ErrorKind>,
)
    decreases pairs.len() - pos,
{
    if pos < 0 || pos >= pairs.len() {
        (t, Ok(body))
    } else {
        match pairs[pos].rule {
            Rule::VarDecl => match declaration(pairs[pos]) {
                Err(e) => (t, Err(e)),
                Ok((ctype, name)) => {
                    let (next, r) = t.add_symbol(ctype, name, SymbolTypeView::Local);
                    match r {
                        Err(e) => (next, Err(e)),
                        Ok(_) => members(pairs, pos + 1, next, body),
                    }
                },
            },
            Rule::Statements => match statements(pairs[pos], t) {
                Err(e) => (t, Err(e)),
                Ok(list) => members(pairs, pos + 1, t, list),
            },
            _ => (t, Err(ErrorKind::Other)),
        }
    }
}

/// Whether a definition agrees with what its name was declared as: the same
/// return type and, for a function, the same parameter types.
pub open spec fn matches_declaration(symbol: EntryView, ret_type: CType, params: Seq<CType>) -> bool {
    symbol.ctype() == ret_type && match symbol {
        EntryView::Function { arguments, .. } => arguments == params,
        EntryView::Symbol { .. } => true,
    }
}

/// The table after a function's name was declared, unless it was declared
/// before, and held against its declaration.
pub open spec fn declared(
    t: SymTableView,
    ret_type: CType,
    name: Seq<char>,
    params: Seq<CType>,
) -> (SymTableView, Result<EntryView, ErrorKind>) {
    let (next, r) = if t.contains_symbol(name) {
        (t, Ok(()))
    } else {
        t.add_function(ret_type, name, params)
    };
    match r {
        Err(e) => (next, Err(e)),
        Ok(_) => match next.get_symbol(name) {
            Err(e) => (next, Err(e)),
            Ok(symbol) => if matches_declaration(symbol, ret_type, params) {
                (next, Ok(symbol))
            } else {
                (next, Err(ErrorKind::Type))
            },
        },
    }
}

/// The table and the tree after the definition of a function: its name is
/// declared unless it was, and held against its declaration; a scope is
/// pushed for its body; its parameters are declared as arguments, its
/// variables as locals; its statements are read; the scope is popped.
pub open spec fn function_of(pair: Pair, t: SymTableView) -> (
    SymTableView,
    Result<NodeView, ErrorKind>,
) {
    let inner = pair.inner@;
    if inner.len() == 0 {
        (t, Err(ErrorKind::PairsNext))
    } else {
        match base_type(inner[0].inner@) {
            Err(e) => (t, Err(e)),
            Ok(ret_type) => if inner.len() < 3 {
                (t, Err(ErrorKind::PairsNext))
            } else {
                let name = inner[1].text@;
                match params_of(inner[2]) {
                    Err(e) => (t, Err(e)),
                    Ok(params) => {
                        let (t1, found) = declared(t, ret_type, name, param_types(params));
                        match found {
                            Err(e) => (t1, Err(e)),
                            Ok(symbol) => {
                                let (t2, pushed) = t1.push_scope(symbol.address(), name, ret_type);
                                match pushed {
                                    Err(e) => (t2, Err(e)),
                                    Ok(_) => {
                                        let (t3, added) = with_params(params, 0, t2);
                                        match added {
                                            Err(e) => (t3, Err(e)),
                                            Ok(_) => {
                                                let (t4, body) = members(
                                                    inner,
                                                    3,
                                                    t3,
                                                    NodeView::Empty,
                                                );
                                                match body {
                                                    Err(e) => (t4, Err(e)),
                                                    Ok(statements) => {
                                                        let (t5, popped) = t4.pop_scope();
                                                        match popped {
                                                            Err(e) => (t5, Err(e)),
                                                            Ok(_) => match t5.get_scope(name) {
                                                                Err(e) => (t5, Err(e)),
                                                                Ok(scope) => (
                                                                    t5,
                                                                    Ok(
                                                                        NodeView::Function {
                                                                            ident: name,
                                                                            scope,
                                                                            statements: Box::new(
                                                                                statements,
                                                                            ),
                                                                        },
                                                                    ),
                                                                ),
                                                            },
                                                        }
                                                    },
                                                }
                                            },
                                        }
                                    },
                                }
                            },
                        }
                    },
                }
            },
        }
    }
}

/// The models of a list of parameters.
pub open spec fn params_view(v: Seq<(CType, String)>) -> Seq<(CType, Seq<char>)> {
    Seq::new(v.len(), |i: int| (v[i].0, v[i].1@))
}

/// A parameter that fails fails the list.
pub proof fn lemma_params_fail(pairs: Seq<Pair>, k: int, n: int)
    requires
        0 <= k <= n,
        params_upto(pairs, k) is Err,
    ensures
        params_upto(pairs, n) == params_upto(pairs, k),
    decreases n - k,
{
    if k < n {
        lemma_params_fail(pairs, k, n - 1);
    }
}

/// A statement that fails fails the list.
pub proof fn lemma_statements_fail(pairs: Seq<Pair>, k: int, n: int, t: SymTableView)
    requires
        0 <= k <= n <= pairs.len(),
        statements_upto(pairs, k, t) is Err,
    ensures
        statements_upto(pairs, n, t) == statements_upto(pairs, k, t),
    decreases n - k,
{
    if k < n {
        lemma_statements_fail(pairs, k, n - 1, t);
    }
}

fn declaration_of(pair: &Pair) -> (r: Result<(CType, String), Error>)
    ensures
        match r {
            Ok((ctype, name)) => declaration(*pair) == Ok::<(CType, Seq<char>), ErrorKind>(
                (ctype, name@),
            ),
            Err(e) => declaration(*pair) == Err::<(CType, Seq<char>), ErrorKind>(e.kind()),
        },
{
    if pair.inner.len() == 0 {
        return Err(Error::PairsNext);
    }
    let ctype = match CType::from_base_type(&pair.inner[0].inner) {
        Ok(t) => t,
        Err(e) => {
            return Err(e);
        },
    };
    if pair.inner.len() < 2 {
        return Err(Error::PairsNext);
    }
    Ok((ctype, pair.inner[1].text.clone()))
}

fn extract_params(pair: &Pair) -> (r: Result<Vec<(CType, String)>, Error>)
    ensures
        match r {
            Ok(params) => params_of(*pair) == Ok::<Seq<(CType, Seq<char>)>, ErrorKind>(
                params_view(params@),
            ),
            Err(e) => params_of(*pair) == Err::<Seq<(CType, Seq<char>)>, ErrorKind>(e.kind()),
        },
{
    match pair.rule {
        Rule::Params => {},
        _ => {
            return Err(Error::Other(String::from_str("extract_params: pair is not params")));
        },
    }
    let mut ret: Vec<(CType, String)> = Vec::new();
    let mut k: usize = 0;
    assert(params_view(ret@) =~= Seq::<(CType, Seq<char>)>::empty());
    while k < pair.inner.len()
        invariant
            k <= pair.inner@.len(),
            pair.rule == Rule::Params,
            params_upto(pair.inner@, k as int) == Ok::<Seq<(CType, Seq<char>)>, ErrorKind>(
                params_view(ret@),
            ),
        decreases pair.inner@.len() - k,
    {
        let ghost done = params_view(ret@);
        match declaration_of(&pair.inner[k]) {
            Ok((ctype, name)) => {
                ret.push((ctype, name));
                assert(params_view(ret@) =~= done.push((ctype, name@)));
            },
            Err(e) => {
                proof {
                    assert(params_upto(pair.inner@, k + 1) is Err);
                    lemma_params_fail(pair.inner@, k + 1, pair.inner@.len() as int);
                }
                return Err(e);
            },
        }
        k += 1;
    }
    Ok(ret)
}

fn from_assignment(inner: &Vec<Pair>, symtable: &SymTable) -> (r: Result<Node, Error>)
    requires
        symtable.wf(),
    ensures
        outcome(r) == assignment(inner@, symtable@),
{
    if inner.len() == 0 {
        return Err(Error::PairsNext);
    }
    let lhs = match from_lval(&inner[0].inner, symtable) {
        Ok(n) => n,
        Err(e) => {
            return Err(e);
        },
    };
    let ctype = match lhs.strip_ctype() {
        Ok(t) => t,
        Err(e) => {
            return Err(e);
        },
    };
    if inner.len() < 2 {
        return Err(Error::PairsNext);
    }
    let mut rhs = match from_expr(&inner[1].inner, symtable) {
        Ok(n) => n,
        Err(e) => {
            return Err(e);
        },
    };
    if !rhs.ctype().same(&ctype) {
        match ctype {
            CType::Int | CType::Float => {
                rhs = rhs.cast(&ctype);
            },
            _ => {
                rhs = match rhs.set_ctype(&ctype) {
                    Ok(n) => n,
                    Err(e) => {
                        return Err(e);
                    },
                };
            },
        }
    }
    Ok(Node::Assign { ctype, rhs: Box::new(rhs), lhs: Box::new(lhs) })
}

fn from_return(inner: &Vec<Pair>, symtable: &SymTable) -> (r: Result<Node, Error>)
    requires
        symtable.wf(),
    ensures
        outcome(r) == return_node(inner@, symtable@),
{
    let ctype = match symtable.get_scope_ctype() {
        Ok(t) => t,
        Err(e) => {
            return Err(e);
        },
    };
    if inner.len() > 0 {
        let value = match from_expr(&inner[0].inner, symtable) {
            Ok(n) => n,
            Err(e) => {
                return Err(e);
            },
        };
        let expr = match value.set_ctype(&ctype) {
            Ok(n) => n,
            Err(e) => {
                return Err(e);
            },
        };
        let function = match symtable.get_function() {
            Ok(f) => f,
            Err(e) => {
                return Err(e);
            },
        };
        Ok(Node::Return { ctype, function, expr: Box::new(expr) })
    } else {
        match ctype {
            CType::Void => {},
            _ => {
                return Err(Error::Type);
            },
        }
        let function = match symtable.get_function() {
            Ok(f) => f,
            Err(e) => {
                return Err(e);
            },
        };
        Ok(Node::Return { ctype, function, expr: Box::new(Node::Empty) })
    }
}

/// Builds the tree of a list of statements.
pub fn from_statements(pair: &Pair, symtable: &SymTable) -> (r: Result<Node, Error>)
    requires
        symtable.wf(),
    ensures
        outcome(r) == statements(*pair, symtable@),
    decreases *pair, 3int,
{
    let mut list: Vec<Node> = Vec::new();
    let mut k: usize = 0;
    assert(node_views(list@) =~= Seq::<NodeView>::empty());
    while k < pair.inner.len()
        invariant
            symtable.wf(),
            k <= pair.inner@.len(),
            statements_upto(pair.inner@, k as int, symtable@) == Ok::<Seq<NodeView>, ErrorKind>(
                node_views(list@),
            ),
        decreases pair.inner@.len() - k,
    {
        proof {
            assert(decreases_to!(*pair => pair.inner));
            assert(decreases_to!(pair.inner => pair.inner[k as int]));
        }
        let ghost done = node_views(list@);
        match from_statement(&pair.inner[k], symtable) {
            Ok(s) => {
                list.push(s);
                assert(node_views(list@) =~= done.push(s@));
            },
            Err(e) => {
                proof {
                    assert(statements_upto(pair.inner@, k + 1, symtable@) is Err);
                    lemma_statements_fail(
                        pair.inner@,
                        k + 1,
                        pair.inner@.len() as int,
                        symtable@,
                    );
                }
                return Err(e);
            },
        }
        k += 1;
    }
    if list.len() == 0 {
        return Err(Error::Other(String::from_str("from_statements: no statements")));
    }
    let ghost shown = node_views(list@);
    let node = Node::StatementList { statements: list };
    assert(node@ == (NodeView::StatementList { statements: shown })) by {
        assert(node@->StatementList_statements =~= shown);
    }
    Ok(node)
}

/// Builds the statements below a branch or a loop.
fn branch_of(pair: &Pair, k: usize, symtable: &SymTable) -> (r: Result<Node, Error>)
    requires
        symtable.wf(),
        k < pair.inner@.len(),
    ensures
        outcome(r) == statements(pair.inner@[k as int], symtable@),
    decreases *pair, 0int,
{
    proof {
        assert(decreases_to!(*pair => pair.inner));
        assert(decreases_to!(pair.inner => pair.inner[k as int]));
    }
    from_statements(&pair.inner[k], symtable)
}

fn from_if(pair: &Pair, symtable: &SymTable) -> (r: Result<Node, Error>)
    requires
        symtable.wf(),
    ensures
        outcome(r) == if_node(*pair, symtable@),
    decreases *pair, 1int,
{
    if pair.inner.len() == 0 {
        return Err(Error::PairsNext);
    }
    let cond = match from_cond(&pair.inner[0].inner, symtable) {
        Ok(n) => n,
        Err(e) => {
            return Err(e);
        },
    };
    if pair.inner.len() < 2 {
        return Err(Error::PairsNext);
    }
    let lhs = match branch_of(pair, 1, symtable) {
        Ok(n) => n,
        Err(e) => {
            return Err(e);
        },
    };
    if pair.inner.len() < 3 {
        let rhs = Node::Empty;
        assert(rhs@ == NodeView::Empty);
        return Ok(Node::IfElse { cond: Box::new(cond), lhs: Box::new(lhs), rhs: Box::new(rhs) });
    }
    let rhs = match branch_of(pair, 2, symtable) {
        Ok(n) => n,
        Err(e) => {
            return Err(e);
        },
    };
    Ok(Node::IfElse { cond: Box::new(cond), lhs: Box::new(lhs), rhs: Box::new(rhs) })
}

fn from_while(pair: &Pair, symtable: &SymTable) -> (r: Result<Node, Error>)
    requires
        symtable.wf(),
    ensures
        outcome(r) == while_node(*pair, symtable@),
    decreases *pair, 1int,
{
    if pair.inner.len() == 0 {
        return Err(Error::PairsNext);
    }
    let cond = match from_cond(&pair.inner[0].inner, symtable) {
        Ok(n) => n,
        Err(e) => {
            return Err(e);
        },
    };
    if pair.inner.len() < 2 {
        return Err(Error::PairsNext);
    }
    let body = match branch_of(pair, 1, symtable) {
        Ok(n) => n,
        Err(e) => {
            return Err(e);
        },
    };
    Ok(Node::While { cond: Box::new(cond), statements: Box::new(body) })
}

/// Builds the tree of one statement.
pub fn from_statement(pair: &Pair, symtable: &SymTable) -> (r: Result<Node, Error>)
    requires
        symtable.wf(),
    ensures
        outcome(r) == statement(*pair, symtable@),
    decreases *pair, 2int,
{
    match pair.rule {
        Rule::Call => {
            if pair.inner.len() == 0 {
                return Err(Error::Other(String::from_str("from_statement: call is empty")));
            }
            from_pair_to_node(&pair.inner[0], symtable)
        },
        Rule::AssignStmt => from_assignment(&pair.inner, symtable),
        Rule::ReturnStmt => from_return(&pair.inner, symtable),
        Rule::IfStmt => from_if(pair, symtable),
        Rule::WhileStmt => from_while(pair, symtable),
        _ => Err(Error::Other(String::from_str("from_statement: expected statement, found other"))),
    }
}

fn same_types(a: &Vec<CType>, b: &Vec<CType>) -> (r: bool)
    ensures
        r == (a@ == b@),
{
    if a.len() != b.len() {
        return false;
    }
    let mut i: usize = 0;
    while i < a.len()
        invariant
            i <= a@.len(),
            a@.len() == b@.len(),
            forall|j: int| 0 <= j < i ==> a@[j] == b@[j],
        decreases a@.len() - i,
    {
        if !a[i].same(&b[i]) {
            return false;
        }
        i += 1;
    }
    assert(a@ =~= b@);
    true
}

fn declare(symtable: &mut SymTable, ret_type: &CType, name: &String, params: Vec<CType>) -> (r:
    Result<Entry, Error>)
    requires
        old(symtable).wf(),
    ensures
        final(symtable).wf(),
        (final(symtable)@, outcome(r)) == declared(old(symtable)@, *ret_type, name@, params@),
        old(symtable)@.names_unique() ==> final(symtable)@.names_unique(),
{
    if !symtable.contains_symbol(name) {
        match symtable.add_function(ret_type.clone(), name.clone(), crate::symtable::entry::clone_types(&params)) {
            Ok(()) => {},
            Err(e) => {
                return Err(e);
            },
        }
    }
    let symbol = match symtable.get_symbol(name) {
        Ok(s) => s,
        Err(e) => {
            return Err(e);
        },
    };
    if !ret_type.same(&symbol.ctype()) {
        return Err(Error::Type);
    }
    match &symbol {
        Entry::Function { arguments, .. } => {
            if !same_types(arguments, &params) {
                return Err(Error::Type);
            }
        },
        Entry::Symbol { .. } => {},
    }
    Ok(symbol)
}

fn add_params(symtable: &mut SymTable, params: &Vec<(CType, String)>) -> (r: Result<(), Error>)
    requires
        old(symtable).wf(),
    ensures
        final(symtable).wf(),
        (final(symtable)@, plain(r)) == with_params(params_view(params@), 0, old(symtable)@),
        old(symtable)@.names_unique() ==> final(symtable)@.names_unique(),
{
    let ghost all = params_view(params@);
    let mut pos: usize = 0;
    while pos < params.len()
        invariant
            symtable.wf(),
            pos <= params@.len(),
            all == params_view(params@),
            with_params(all, 0, old(symtable)@) == with_params(all, pos as int, symtable@),
            old(symtable)@.names_unique() ==> symtable@.names_unique(),
        decreases params@.len() - pos,
    {
        let ctype = params[pos].0.clone();
        let ident = params[pos].1.clone();
        assert(all[pos as int] == (ctype, ident@));
        match symtable.add_symbol(ctype, ident, SymbolType::Argument) {
            Ok(()) => {},
            Err(e) => {
                return Err(e);
            },
        }
        pos += 1;
    }
    Ok(())
}

fn add_members(pair: &Pair, symtable: &mut SymTable) -> (r: Result<Node, Error>)
    requires
        old(symtable).wf(),
        pair.inner@.len() >= 3,
    ensures
        final(symtable).wf(),
        (final(symtable)@, outcome(r)) == members(pair.inner@, 3, old(symtable)@, NodeView::Empty),
        old(symtable)@.names_unique() ==> final(symtable)@.names_unique(),
{
    let mut body = Node::Empty;
    let mut pos: usize = 3;
    while pos < pair.inner.len()
        invariant
            symtable.wf(),
            3 <= pos <= pair.inner@.len(),
            members(pair.inner@, 3, old(symtable)@, NodeView::Empty) == members(
                pair.inner@,
                pos as int,
                symtable@,
                body@,
            ),
            old(symtable)@.names_unique() ==> symtable@.names_unique(),
        decreases pair.inner@.len() - pos,
    {
        let p = &pair.inner[pos];
        match p.rule {
            Rule::VarDecl => {
                let (ctype, name) = match declaration_of(p) {
                    Ok(d) => d,
                    Err(e) => {
                        return Err(e);
                    },
                };
                match symtable.add_symbol(ctype, name, SymbolType::Local) {
                    Ok(()) => {},
                    Err(e) => {
                        return Err(e);
                    },
                }
            },
            Rule::Statements => {
                body = match from_statements(p, symtable) {
                    Ok(n) => n,
                    Err(e) => {
                        return Err(e);
                    },
                };
            },
            _ => {
                return Err(
                    Error::Other(String::from_str("from_function: expected function content")),
                );
            },
        }
        pos += 1;
    }
    Ok(body)
}

fn types_of(params: &Vec<(CType, String)>) -> (r: Vec<CType>)
    ensures
        r@ == param_types(params_view(params@)),
{
    let mut out: Vec<CType> = Vec::new();
    let mut i: usize = 0;
    while i < params.len()
        invariant
            i <= params@.len(),
            out@.len() == i,
            forall|j: int| 0 <= j < i ==> out@[j] == params@[j].0,
        decreases params@.len() - i,
    {
        out.push(params[i].0.clone());
        i += 1;
    }
    assert(out@ =~= param_types(params_view(params@)));
    out
}

/// Builds the tree of a function's definition, and declares in the table
/// what the definition declares.
pub fn from_function(pair: &Pair, symtable: &mut SymTable) -> (r: Result<Node, Error>)
    requires
        old(symtable).wf(),
    ensures
        final(symtable).wf(),
        (final(symtable)@, outcome(r)) == function_of(*pair, old(symtable)@),
        old(symtable)@.names_unique() ==> final(symtable)@.names_unique(),
{
    if pair.inner.len() == 0 {
        return Err(Error::PairsNext);
    }
    let ret_type = match CType::from_base_type(&pair.inner[0].inner) {
        Ok(t) => t,
        Err(e) => {
            return Err(e);
        },
    };
    if pair.inner.len() < 3 {
        return Err(Error::PairsNext);
    }
    let name = pair.inner[1].text.clone();
    let params = match extract_params(&pair.inner[2]) {
        Ok(p) => p,
        Err(e) => {
            return Err(e);
        },
    };
    let symbol = match declare(symtable, &ret_type, &name, types_of(&params)) {
        Ok(s) => s,
        Err(e) => {
            return Err(e);
        },
    };
    match symtable.push_scope(symbol.address(), &name, ret_type) {
        Ok(()) => {},
        Err(e) => {
            return Err(e);
        },
    }
    match add_params(symtable, &params) {
        Ok(()) => {},
        Err(e) => {
            return Err(e);
        },
    }
    let statements = match add_members(pair, symtable) {
        Ok(n) => n,
        Err(e) => {
            return Err(e);
        },
    };
    match symtable.pop_scope() {
        Ok(()) => {},
        Err(e) => {
            return Err(e);
        },
    }
    let scope = match symtable.get_scope(&name) {
        Ok(s) => s,
        Err(e) => {
            return Err(e);
        },
    };
    Ok(Node::Function { scope, ident: name, statements: Box::new(statements) })
}

/// Declaring parameters keeps a table well formed and without string
/// constants.
pub proof fn lemma_with_params(params: Seq<(CType, Seq<char>)>, pos: int, t: SymTableView)
    requires
        t.wf(),
        0 <= pos,
    ensures
        with_params(params, pos, t).0.wf(),
        t.no_strings() ==> with_params(params, pos, t).0.no_strings(),
    decreases params.len() - pos,
{
    if pos < params.len() {
        let (next, r) = t.add_symbol(params[pos].0, params[pos].1, SymbolTypeView::Argument);
        t.lemma_steps_keep_wf(
            params[pos].0,
            params[pos].1,
            Seq::empty(),
            SymbolTypeView::Argument,
            0,
            0,
        );
        if t.no_strings() {
            t.lemma_add_symbol_no_strings(params[pos].0, params[pos].1, SymbolTypeView::Argument);
        }
        if r is Ok {
            lemma_with_params(params, pos + 1, next);
        }
    }
}

/// The members of a function keep a table well formed and without string
/// constants.
pub proof fn lemma_members(pairs: Seq<Pair>, pos: int, t: SymTableView, body: NodeView)
    requires
        t.wf(),
        0 <= pos,
    ensures
        members(pairs, pos, t, body).0.wf(),
        t.no_strings() ==> members(pairs, pos, t, body).0.no_strings(),
    decreases pairs.len() - pos,
{
    if pos < pairs.len() {
        match pairs[pos].rule {
            Rule::VarDecl => match declaration(pairs[pos]) {
                Err(e) => {},
                Ok((ctype, name)) => {
                    let (next, r) = t.add_symbol(ctype, name, SymbolTypeView::Local);
                    t.lemma_steps_keep_wf(ctype, name, Seq::empty(), SymbolTypeView::Local, 0, 0);
                    if t.no_strings() {
                        t.lemma_add_symbol_no_strings(ctype, name, SymbolTypeView::Local);
                    }
                    if r is Ok {
                        lemma_members(pairs, pos + 1, next, body);
                    }
                },
            },
            Rule::Statements => match statements(pairs[pos], t) {
                Err(e) => {},
                Ok(list) => {
                    lemma_members(pairs, pos + 1, t, list);
                },
            },
            _ => {},
        }
    }
}

/// The definition of a function keeps a table well formed, and without
/// string constants where it had none.
pub proof fn lemma_function_of(pair: Pair, t: SymTableView)
    requires
        t.wf(),
    ensures
        function_of(pair, t).0.wf(),
        t.no_strings() ==> function_of(pair, t).0.no_strings(),
{
    let inner = pair.inner@;
    if inner.len() >= 3 && base_type(inner[0].inner@) is Ok && params_of(inner[2]) is Ok {
        let ret_type = base_type(inner[0].inner@)->Ok_0;
        let name = inner[1].text@;
        let params = params_of(inner[2])->Ok_0;
        let types = param_types(params);
        t.lemma_steps_keep_wf(ret_type, name, types, SymbolTypeView::Global, 0, 0);
        if t.no_strings() {
            t.lemma_add_function_no_strings(ret_type, name, types);
        }
        let (t1, found) = declared(t, ret_type, name, types);
        if found is Ok {
            let symbol = found->Ok_0;
            t1.lemma_steps_keep_wf(ret_type, name, types, SymbolTypeView::Global, symbol.address(), 0);
            if t1.no_strings() {
                t1.lemma_push_scope_no_strings(symbol.address(), name, ret_type);
            }
            let (t2, pushed) = t1.push_scope(symbol.address(), name, ret_type);
            if pushed is Ok {
                lemma_with_params(params, 0, t2);
                let (t3, added) = with_params(params, 0, t2);
                if added is Ok {
                    lemma_members(inner, 3, t3, NodeView::Empty);
                    let (t4, body) = members(inner, 3, t3, NodeView::Empty);
                    if body is Ok {
                        t4.lemma_steps_keep_wf(ret_type, name, types, SymbolTypeView::Global, 0, 0);
                    }
                }
            }
        }
    }
}

} // verus!
