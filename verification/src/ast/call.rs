use super::climbers::call_arguments;
use super::climbers::call_node;
use super::climbers::from_expr;
use super::climbers::from_ident;
use super::climbers::func_call;
use super::climbers::Climber;
use super::node::node_views;
use super::node::Node;
use super::node::NodeView;
use crate::error::outcome;
use crate::error::Error;
use crate::error::ErrorKind;
use crate::parser::Pair;
use crate::parser::Rule;
use crate::symtable::object::SymTableView;
use crate::symtable::CType;
use crate::symtable::SymTable;
use vstd::prelude::*;

verus! {

/// An argument that fails fails the call, however many arguments are read
/// after it.
pub proof fn lemma_call_arguments_fail(
    pairs: Seq<Pair>,
    params: Seq<CType>,
    k: int,
    n: int,
    t: SymTableView,
)
    requires
        0 <= k <= n < pairs.len(),
        call_arguments(pairs, params, k, t) is Err,
    ensures
        call_arguments(pairs, params, n, t) == call_arguments(pairs, params, k, t),
    decreases n - k,
{
    if k < n {
        lemma_call_arguments_fail(pairs, params, k, n - 1, t);
    }
}

/// Builds the tree of a call statement or expression.
pub fn from_pair_to_node(pair: &Pair, symtable: &SymTable) -> (r: Result<Node, Error>)
    requires
        symtable.wf(),
    ensures
        outcome(r) == call_node(*pair, symtable@),
    decreases *pair, 0int, 2int,
{
    match pair.rule {
        Rule::FuncCall => from_func_call(pair, symtable),
        Rule::ReadStmt => {
            if pair.inner.len() == 0 {
                return Err(Error::PairsNext);
            }
            let var = match from_ident(&pair.inner[0].text, symtable) {
                Ok(n) => n,
                Err(e) => {
                    return Err(e);
                },
            };
            Ok(Node::Read { ctype: var.ctype(), var: Box::new(var) })
        },
        Rule::PrintStmt | Rule::MallocStmt | Rule::FreeStmt => {
            if pair.inner.len() == 0 {
                return Err(Error::PairsNext);
            }
            proof {
                assert(decreases_to!(*pair => pair.inner));
                assert(decreases_to!(pair.inner => pair.inner[0]));
                assert(decreases_to!(pair.inner[0] => pair.inner[0].inner));
                assert(decreases_to!(pair.inner[0].inner => pair.inner[0].inner@));
            }
            let expr = match from_expr(&pair.inner[0].inner, symtable) {
                Ok(n) => n,
                Err(e) => {
                    return Err(e);
                },
            };
            match pair.rule {
                Rule::PrintStmt => Ok(Node::Write { ctype: expr.ctype(), expr: Box::new(expr) }),
                Rule::MallocStmt => Ok(
                    Node::Malloc { ctype: CType::Ptr(Box::new(CType::Void)), expr: Box::new(expr) },
                ),
                _ => {
                    match expr.ctype() {
                        CType::Ptr(_) => Ok(Node::Free { expr: Box::new(expr) }),
                        _ => Err(Error::Type),
                    }
                },
            }
        },
        _ => Err(Error::Other(String::from_str("from_pair_to_node: expected call, got other"))),
    }
}

/// Builds the first `read` arguments of a call.
fn arguments_of(pair: &Pair, params: &Vec<CType>, read: usize, symtable: &SymTable) -> (r: Result<
    Vec<Node>,
    Error,
>)
    requires
        symtable.wf(),
        read < pair.inner@.len(),
        read <= params@.len(),
    ensures
        match r {
            Ok(arguments) => call_arguments(pair.inner@, params@, read as int, symtable@) == Ok::<
                Seq<NodeView>,
                ErrorKind,
            >(node_views(arguments@)),
            Err(e) => call_arguments(pair.inner@, params@, read as int, symtable@) == Err::<
                Seq<NodeView>,
                ErrorKind,
            >(e.kind()),
        },
    decreases *pair, 0int, 0int,
{
    let mut arguments: Vec<Node> = Vec::new();
    let mut k: usize = 0;
    assert(node_views(arguments@) =~= Seq::<NodeView>::empty());
    while k < read
        invariant
            symtable.wf(),
            k <= read < pair.inner@.len(),
            read <= params@.len(),
            call_arguments(pair.inner@, params@, k as int, symtable@) == Ok::<
                Seq<NodeView>,
                ErrorKind,
            >(node_views(arguments@)),
        decreases read - k,
    {
        proof {
            assert(decreases_to!(*pair => pair.inner));
            assert(decreases_to!(pair.inner => pair.inner[k + 1]));
            assert(decreases_to!(pair.inner[k + 1] => pair.inner[k + 1].inner));
            assert(decreases_to!(pair.inner[k + 1].inner => pair.inner[k + 1].inner@));
        }
        let ghost done = node_views(arguments@);
        let parsed = from_expr(&pair.inner[k + 1].inner, symtable);
        let arg = match parsed {
            Ok(n) => n,
            Err(e) => {
                proof {
                    assert(call_arguments(pair.inner@, params@, k + 1, symtable@) == Err::<
                        Seq<NodeView>,
                        ErrorKind,
                    >(e.kind()));
                    lemma_call_arguments_fail(pair.inner@, params@, k + 1, read as int, symtable@);
                }
                return Err(e);
            },
        };
        let retyped = match arg.set_ctype(&params[k]) {
            Ok(n) => n,
            Err(e) => {
                proof {
                    assert(call_arguments(pair.inner@, params@, k + 1, symtable@) == Err::<
                        Seq<NodeView>,
                        ErrorKind,
                    >(e.kind()));
                    lemma_call_arguments_fail(pair.inner@, params@, k + 1, read as int, symtable@);
                }
                return Err(e);
            },
        };
        arguments.push(retyped);
        assert(node_views(arguments@) =~= done.push(retyped@));
        k += 1;
    }
    Ok(arguments)
}

fn from_func_call(pair: &Pair, symtable: &SymTable) -> (r: Result<Node, Error>)
    requires
        symtable.wf(),
    ensures
        outcome(r) == func_call(*pair, symtable@),
    decreases *pair, 0int, 1int,
{
    if pair.inner.len() == 0 {
        return Err(Error::PairsNext);
    }
    let ident = pair.inner[0].text.clone();
    let symbol = match symtable.get_symbol(&ident) {
        Ok(s) => s,
        Err(e) => {
            return Err(e);
        },
    };
    let params = match symbol.arguments() {
        Ok(p) => p,
        Err(e) => {
            return Err(e);
        },
    };
    let given = pair.inner.len() - 1;
    let read = if given < params.len() {
        given
    } else {
        params.len()
    };
    let arguments = match arguments_of(pair, &params, read, symtable) {
        Ok(a) => a,
        Err(e) => {
            return Err(e);
        },
    };
    if given != params.len() {
        return Err(Error::Type);
    }
    let scope = match symtable.get_scope(&ident) {
        Ok(s) => s,
        Err(e) => {
            return Err(e);
        },
    };
    let ghost shown = node_views(arguments@);
    let node = Node::Call { ctype: symbol.ctype(), scope, ident, arguments };
    assert(node@ == (NodeView::Call {
        ctype: symbol@.ctype(),
        ident: ident@,
        scope,
        arguments: shown,
    })) by {
        assert(node@->arguments =~= shown);
    }
    Ok(node)
}

} // verus!
