//! The parse tree that the compiler reads, and the construction of a
//! program from it.

use crate::ast::construct::declaration;
use crate::ast::construct::from_function;
use crate::ast::construct::function_of;
use crate::ast::node::node_views;
use crate::ast::node::Node;
use crate::ast::node::NodeView;
use crate::error::Error;
use crate::error::ErrorKind;
use crate::symtable::ctype::base_type;
use crate::symtable::entry::SymbolTypeView;
use crate::symtable::object::SymTableView;
use crate::symtable::CType;
use crate::symtable::SymTable;
use crate::symtable::SymbolType;
use vstd::prelude::*;

verus! {

/// The address of the first global variable.
pub const GLOBAL_BASE: i32 = 0x20000000;

/// The address of the first string constant.
pub const STRING_BASE: i32 = 0x10000000;

/// The kinds of parse-tree nodes that the compiler knows; `Other` stands
/// for any kind that it does not.
#[derive(Clone, Copy, Debug, PartialEq, Eq, PartialOrd, Ord, Hash, Structural)]
pub enum Rule {
    FuncDecl,
    VarDecl,
    StrDecl,
    Function,
    Params,
    Statements,
    Call,
    AssignStmt,
    ReturnStmt,
    IfStmt,
    WhileStmt,
    FuncCall,
    ReadStmt,
    PrintStmt,
    MallocStmt,
    FreeStmt,
    Expr,
    Lval,
    Ident,
    IntLit,
    FloatLit,
    Plus,
    Minus,
    Times,
    Divide,
    Neg,
    BaseType,
    Dereference,
    Reference,
    Address,
    ArrayExpr,
    Equal,
    NotEqual,
    Less,
    LessEqual,
    Greater,
    GreaterEqual,
    Int,
    Float,
    Void,
    Ptr,
    Other,
}

/// A node of the parse tree: its kind, the source text that it spans and
/// the nodes below it, in source order.
#[derive(Debug, PartialEq, Eq)]
pub struct Pair {
    pub rule: Rule,
    pub text: String,
    pub inner: Vec<Pair>,
}

impl Pair {
    /// A node without nodes below it.
    pub fn leaf(rule: Rule, text: &str) -> (p: Pair)
        ensures
            p.rule == rule,
            p.text@ == text@,
            p.inner@.len() == 0,
    {
        Pair { rule, text: String::from_str(text), inner: Vec::new() }
    }

    /// A node over the nodes given.
    pub fn node(rule: Rule, text: &str, inner: Vec<Pair>) -> (p: Pair)
        ensures
            p.rule == rule,
            p.text@ == text@,
            p.inner == inner,
    {
        Pair { rule, text: String::from_str(text), inner }
    }
}

/// The first `k` parameter types of a function's declaration.
pub open spec fn prototype_types(pairs: Seq<Pair>, k: int) -> Result<Seq<CType>, ErrorKind>
    decreases k,
{
    if k <= 0 {
        Ok(Seq::empty())
    } else {
        match prototype_types(pairs, k - 1) {
            Err(e) => Err(e),
            Ok(done) => if pairs[k - 1].inner@.len() == 0 {
                Err(ErrorKind::Other)
            } else {
                match base_type(pairs[k - 1].inner@[0].inner@) {
                    Err(e) => Err(e),
                    Ok(ctype) => Ok(done.push(ctype)),
                }
            },
        }
    }
}

/// The table after the declaration of a function: its return type, its
/// name and the types of its parameters.
pub open spec fn prototype(pair: Pair, t: SymTableView) -> (SymTableView, Result<(), ErrorKind>) {
    if pair.inner@.len() == 0 {
        (t, Err(ErrorKind::PairsNext))
    } else {
        match base_type(pair.inner@[0].inner@) {
            Err(e) => (t, Err(e)),
            Ok(ctype) => if pair.inner@.len() < 3 {
                (t, Err(ErrorKind::PairsNext))
            } else {
                match prototype_types(pair.inner@[2].inner@, pair.inner@[2].inner@.len() as int) {
                    Err(e) => (t, Err(e)),
                    Ok(arguments) => t.add_function(ctype, pair.inner@[1].text@, arguments),
                }
            },
        }
    }
}

/// The table after the declaration of a global variable.
pub open spec fn global(pair: Pair, t: SymTableView) -> (SymTableView, Result<(), ErrorKind>) {
    match declaration(pair) {
        Err(e) => (t, Err(e)),
        Ok((ctype, name)) => t.add_symbol(ctype, name, SymbolTypeView::Global),
    }
}

/// The table after the declaration of a string constant: its name, then
/// its literal.
pub open spec fn string(pair: Pair, t: SymTableView) -> (SymTableView, Result<(), ErrorKind>) {
    if pair.inner@.len() < 2 {
        (t, Err(ErrorKind::PairsNext))
    } else {
        t.add_symbol(
            CType::Str,
            pair.inner@[0].text@,
            SymbolTypeView::Str(pair.inner@[1].text@),
        )
    }
}

/// The table and the functions after the items of a program from `pos` on:
/// declarations change the table, each definition of a function adds its
/// tree to those read so far.
pub open spec fn program_from(pairs: Seq<Pair>, pos: int, t: SymTableView, done: Seq<NodeView>) -> (
    SymTableView,
    Result<Seq<NodeView>, ErrorKind>,
)
    decreases pairs.len() - pos,
{
    if pos < 0 || pos >= pairs.len() {
        (t, Ok(done))
    } else {
        match pairs[pos].rule {
            Rule::FuncDecl | Rule::VarDecl | Rule::StrDecl => {
                let (next, r) = match pairs[pos].rule {
                    Rule::FuncDecl => prototype(pairs[pos], t),
                    Rule::VarDecl => global(pairs[pos], t),
                    _ => string(pairs[pos], t),
                };
                match r {
                    Err(e) => (next, Err(e)),
                    Ok(_) => program_from(pairs, pos + 1, next, done),
                }
            },
            Rule::Function => {
                let (next, r) = function_of(pairs[pos], t);
                match r {
                    Err(e) => (next, Err(e)),
                    Ok(f) => program_from(pairs, pos + 1, next, done.push(f)),
                }
            },
            _ => (t, Err(ErrorKind::Other)),
        }
    }
}

/// The tree and the table of a program: the list of its functions in
/// source order, and what its declarations and definitions declare, with
/// globals from `0x20000000` and strings from `0x10000000`.
pub open spec fn program_of(pairs: Seq<Pair>) -> (SymTableView, Result<NodeView, ErrorKind>) {
    let (t, r) = program_from(
        pairs,
        0,
        SymTableView::fresh(GLOBAL_BASE, STRING_BASE),
        Seq::empty(),
    );
    match r {
        Err(e) => (t, Err(e)),
        Ok(statements) => (t, Ok(NodeView::StatementList { statements })),
    }
}

/// A parameter type that fails fails the declaration.
pub proof fn lemma_prototype_fail(pairs: Seq<Pair>, k: int, n: int)
    requires
        0 <= k <= n,
        prototype_types(pairs, k) is Err,
    ensures
        prototype_types(pairs, n) == prototype_types(pairs, k),
    decreases n - k,
{
    if k < n {
        lemma_prototype_fail(pairs, k, n - 1);
    }
}

fn prototype_of(pairs: &Vec<Pair>) -> (r: Result<Vec<CType>, Error>)
    ensures
        match r {
            Ok(types) => prototype_types(pairs@, pairs@.len() as int) == Ok::<
                Seq<CType>,
                ErrorKind,
            >(types@),
            Err(e) => prototype_types(pairs@, pairs@.len() as int) == Err::<Seq<CType>, ErrorKind>(
                e.kind(),
            ),
        },
{
    let mut types: Vec<CType> = Vec::new();
    let mut k: usize = 0;
    while k < pairs.len()
        invariant
            k <= pairs@.len(),
            prototype_types(pairs@, k as int) == Ok::<Seq<CType>, ErrorKind>(types@),
        decreases pairs@.len() - k,
    {
        if pairs[k].inner.len() == 0 {
            proof {
                assert(prototype_types(pairs@, k + 1) is Err);
                lemma_prototype_fail(pairs@, k + 1, pairs@.len() as int);
            }
            return Err(
                Error::Other(String::from_str("parse_program: expected base_type, got nothing")),
            );
        }
        match CType::from_base_type(&pairs[k].inner[0].inner) {
            Ok(t) => {
                types.push(t);
            },
            Err(e) => {
                proof {
                    assert(prototype_types(pairs@, k + 1) is Err);
                    lemma_prototype_fail(pairs@, k + 1, pairs@.len() as int);
                }
                return Err(e);
            },
        }
        k += 1;
    }
    Ok(types)
}

fn declare_function(pair: &Pair, symtable: &mut SymTable) -> (r: Result<(), Error>)
    requires
        old(symtable).wf(),
    ensures
        final(symtable).wf(),
        (final(symtable)@, crate::error::plain(r)) == prototype(*pair, old(symtable)@),
        old(symtable)@.names_unique() ==> final(symtable)@.names_unique(),
{
    if pair.inner.len() == 0 {
        return Err(Error::PairsNext);
    }
    let ctype = match CType::from_base_type(&pair.inner[0].inner) {
        Ok(t) => t,
        Err(e) => {
            return Err(e);
        },
    };
    if pair.inner.len() < 3 {
        return Err(Error::PairsNext);
    }
    let name = pair.inner[1].text.clone();
    let arguments = match prototype_of(&pair.inner[2].inner) {
        Ok(a) => a,
        Err(e) => {
            return Err(e);
        },
    };
    symtable.add_function(ctype, name, arguments)
}

fn declare_global(pair: &Pair, symtable: &mut SymTable) -> (r: Result<(), Error>)
    requires
        old(symtable).wf(),
    ensures
        final(symtable).wf(),
        (final(symtable)@, crate::error::plain(r)) == global(*pair, old(symtable)@),
        old(symtable)@.names_unique() ==> final(symtable)@.names_unique(),
{
    if pair.inner.len() == 0 {
        return Err(Error::PairsNext);
    }
    let ctype = match CType::from_base_type(&pair.inner[0].inner) {
        Ok(t) => t,
        Err(e) => {
            return Err(e);
        },
    };
    if pair.inner.len() < 2 {
        return Err(Error::PairsNext);
    }
    symtable.add_symbol(ctype, pair.inner[1].text.clone(), SymbolType::Global)
}

fn declare_string(pair: &Pair, symtable: &mut SymTable) -> (r: Result<(), Error>)
    requires
        old(symtable).wf(),
    ensures
        final(symtable).wf(),
        (final(symtable)@, crate::error::plain(r)) == string(*pair, old(symtable)@),
        old(symtable)@.names_unique() ==> final(symtable)@.names_unique(),
{
    if pair.inner.len() < 2 {
        return Err(Error::PairsNext);
    }
    symtable.add_symbol(
        CType::Str,
        pair.inner[0].text.clone(),
        SymbolType::Str(pair.inner[1].text.clone()),
    )
}

/// Builds the tree and the symbol table of a program from its items. The
/// tree is a list of functions over statements whose types agree, and no
/// scope of the table holds a name twice.
pub fn parse_program(pairs: &Vec<Pair>) -> (r: Result<(Node, SymTable), Error>)
    ensures
        match r {
            Ok((node, table)) => table.wf() && table@.names_unique() && crate::ast::typing::typed(
                node@,
            ) && crate::ast::shape::program_shaped(node@) && program_of(pairs@) == (
                table@,
                Ok::<NodeView, ErrorKind>(node@),
            ),
            Err(e) => program_of(pairs@).1 == Err::<NodeView, ErrorKind>(e.kind()),
        },
{
    let mut statements: Vec<Node> = Vec::new();
    let mut symtable = SymTable::new(GLOBAL_BASE, STRING_BASE);
    let ghost start = symtable@;
    let mut pos: usize = 0;
    assert(node_views(statements@) =~= Seq::<NodeView>::empty());
    while pos < pairs.len()
        invariant
            symtable.wf(),
            symtable@.names_unique(),
            pos <= pairs@.len(),
            start == SymTableView::fresh(GLOBAL_BASE, STRING_BASE),
            program_from(pairs@, 0, start, Seq::empty()) == program_from(
                pairs@,
                pos as int,
                symtable@,
                node_views(statements@),
            ),
        decreases pairs@.len() - pos,
    {
        let pair = &pairs[pos];
        let ghost done = node_views(statements@);
        match pair.rule {
            Rule::FuncDecl => {
                match declare_function(pair, &mut symtable) {
                    Ok(()) => {},
                    Err(e) => {
                        return Err(e);
                    },
                }
            },
            Rule::VarDecl => {
                match declare_global(pair, &mut symtable) {
                    Ok(()) => {},
                    Err(e) => {
                        return Err(e);
                    },
                }
            },
            Rule::StrDecl => {
                match declare_string(pair, &mut symtable) {
                    Ok(()) => {},
                    Err(e) => {
                        return Err(e);
                    },
                }
            },
            Rule::Function => {
                match from_function(pair, &mut symtable) {
                    Ok(f) => {
                        statements.push(f);
                        assert(node_views(statements@) =~= done.push(f@));
                    },
                    Err(e) => {
                        return Err(e);
                    },
                }
            },
            _ => {
                return Err(
                    Error::Other(
                        String::from_str("parse_program: expected decls and function, found other"),
                    ),
                );
            },
        }
        pos += 1;
    }
    let ghost shown = node_views(statements@);
    let node = Node::StatementList { statements };
    assert(node@ == (NodeView::StatementList { statements: shown })) by {
        assert(node@->StatementList_statements =~= shown);
    }
    proof {
        crate::ast::typing::lemma_program_typed(pairs@);
        crate::ast::shape::lemma_program_shape(pairs@);
    }
    Ok((node, symtable))
}

/// Whether no item from `pos` on declares a string constant.
pub open spec fn no_string_items(pairs: Seq<Pair>, pos: int) -> bool {
    forall|i: int| pos <= i < pairs.len() ==> (#[trigger] pairs[i]).rule != Rule::StrDecl
}

/// Items that declare no string constant keep a table well formed and
/// without string constants.
pub proof fn lemma_program_from(pairs: Seq<Pair>, pos: int, t: SymTableView, done: Seq<NodeView>)
    requires
        t.wf(),
        0 <= pos,
    ensures
        program_from(pairs, pos, t, done).0.wf(),
        t.no_strings() && no_string_items(pairs, pos) ==> program_from(
            pairs,
            pos,
            t,
            done,
        ).0.no_strings(),
    decreases pairs.len() - pos,
{
    if pos < pairs.len() {
        let pair = pairs[pos];
        match pair.rule {
            Rule::FuncDecl => {
                let (next, r) = prototype(pair, t);
                if pair.inner@.len() >= 3 && base_type(pair.inner@[0].inner@) is Ok
                    && prototype_types(pair.inner@[2].inner@, pair.inner@[2].inner@.len() as int)
                    is Ok {
                    let ctype = base_type(pair.inner@[0].inner@)->Ok_0;
                    let arguments = prototype_types(
                        pair.inner@[2].inner@,
                        pair.inner@[2].inner@.len() as int,
                    )->Ok_0;
                    t.lemma_steps_keep_wf(
                        ctype,
                        pair.inner@[1].text@,
                        arguments,
                        SymbolTypeView::Global,
                        0,
                        0,
                    );
                    if t.no_strings() {
                        t.lemma_add_function_no_strings(ctype, pair.inner@[1].text@, arguments);
                    }
                }
                if r is Ok {
                    lemma_program_from(pairs, pos + 1, next, done);
                }
            },
            Rule::VarDecl => {
                let (next, r) = global(pair, t);
                match declaration(pair) {
                    Ok((ctype, name)) => {
                        t.lemma_steps_keep_wf(
                            ctype,
                            name,
                            Seq::empty(),
                            SymbolTypeView::Global,
                            0,
                            0,
                        );
                        if t.no_strings() {
                            t.lemma_add_symbol_no_strings(ctype, name, SymbolTypeView::Global);
                        }
                    },
                    Err(_) => {},
                }
                if r is Ok {
                    lemma_program_from(pairs, pos + 1, next, done);
                }
            },
            Rule::StrDecl => {
                let (next, r) = string(pair, t);
                if pair.inner@.len() >= 2 {
                    t.lemma_steps_keep_wf(
                        CType::Str,
                        pair.inner@[0].text@,
                        Seq::empty(),
                        SymbolTypeView::Str(pair.inner@[1].text@),
                        0,
                        0,
                    );
                }
                if r is Ok {
                    lemma_program_from(pairs, pos + 1, next, done);
                }
            },
            Rule::Function => {
                let (next, r) = function_of(pair, t);
                crate::ast::construct::lemma_function_of(pair, t);
                if r is Ok {
                    lemma_program_from(pairs, pos + 1, next, done.push(r->Ok_0));
                }
            },
            _ => {},
        }
    }
}

/// A program that declares no string constant has an empty string table.
pub proof fn lemma_program_without_strings(pairs: Seq<Pair>)
    requires
        no_string_items(pairs, 0),
    ensures
        program_of(pairs).0.strings_in_asm() == Seq::<char>::empty(),
{
    let start = SymTableView::fresh(GLOBAL_BASE, STRING_BASE);
    assert(start.no_strings()) by {
        assert forall|i: int| 0 <= i < start.scopes.len() implies crate::symtable::global::no_strings(
            (#[trigger] start.scopes[i]).table(),
        ) by {}
    }
    lemma_program_from(pairs, 0, start, Seq::empty());
    program_of(pairs).0.lemma_strings_empty();
}

} // verus!
