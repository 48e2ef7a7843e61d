use super::instruction::Bank;
use super::instruction::Instruction;
use super::instruction::InstructionView;
use super::instruction::Variant;
use super::instruction::VariantView;
use super::label::Label;
use super::operand;
use super::operand::Operand;
use crate::ast::node::BinOp;
use crate::ast::node::CondOp;
use crate::ast::node::Node;
use crate::ast::node::NodeView;
use crate::error::Error;
use crate::error::ErrorKind;
use crate::symtable::object::SymTableView;
use crate::symtable::CType;
use crate::symtable::SymTable;
use crate::text::dec_int;
use crate::text::decimal;
use std::collections::VecDeque;
use vstd::prelude::*;

verus! {

/// The models of the instructions of a stream.
pub open spec fn views(s: Seq<Instruction>) -> Seq<InstructionView> {
    Seq::new(s.len(), |k: int| s[k]@)
}

/// The counters of a compilation: the last integer temporary, the last
/// float temporary and the last block label that were handed out.
#[derive(Clone, Copy, Debug, PartialEq, Eq, Structural)]
pub struct Count {
    pub regular: u32,
    pub float: u32,
    pub label: u32,
}

/// A stream of instructions, with the operand that holds its result, if it
/// has one.
#[derive(Debug)]
pub struct Instructions {
    pub instructions: VecDeque<Instruction>,
    pub tmp: Option<Operand>,
}

pub struct InstructionsView {
    pub instructions: Seq<InstructionView>,
    pub tmp: Option<Operand>,
}

impl View for Instructions {
    type V = InstructionsView;

    open spec fn view(&self) -> InstructionsView {
        InstructionsView { instructions: views(self.instructions@), tmp: self.tmp }
    }
}

/// The register bank that a value of a type is computed in.
pub open spec fn bank_of(ctype: CType) -> Bank {
    match ctype {
        CType::Float => Bank::F,
        _ => Bank::T,
    }
}

/// A new temporary for a value of a type: the next integer temporary, or
/// the next float temporary for a `float`; none for `void`. Fails when the
/// temporaries are used up.
pub open spec fn new_tmp(ctype: CType, count: Count) -> (Count, Result<Option<Operand>, ErrorKind>) {
    match ctype {
        CType::Void => (count, Ok(None)),
        CType::Float => if count.float == u32::MAX {
            (count, Err(ErrorKind::ThreeAC))
        } else {
            (
                Count { float: (count.float + 1) as u32, ..count },
                Ok(
                    Some(
                        Operand {
                            variant: operand::Variant::TempFloat((count.float + 1) as u32),
                            otype: operand::Type::F,
                        },
                    ),
                ),
            )
        },
        _ => if count.regular == u32::MAX {
            (count, Err(ErrorKind::ThreeAC))
        } else {
            (
                Count { regular: (count.regular + 1) as u32, ..count },
                Ok(
                    Some(
                        Operand {
                            variant: operand::Variant::Temp((count.regular + 1) as u32),
                            otype: operand::Type::T,
                        },
                    ),
                ),
            )
        },
    }
}

/// A new temporary for a value that must exist: a type error for `void`.
pub open spec fn fresh(ctype: CType, count: Count) -> (Count, Result<Operand, ErrorKind>) {
    match new_tmp(ctype, count) {
        (c, Ok(Some(op))) => (c, Ok(op)),
        (c, Ok(None)) => (c, Err(ErrorKind::Type)),
        (c, Err(e)) => (c, Err(e)),
    }
}

/// What lowering leaves: the counters, the symbol table and the
/// instructions, or the first error.
pub struct Low {
    pub count: Count,
    pub table: SymTableView,
    pub result: Result<InstructionsView, ErrorKind>,
}

impl Low {
    /// A lowering that stopped on an error.
    pub open spec fn fail(count: Count, table: SymTableView, e: ErrorKind) -> Low {
        Low { count, table, result: Err(e) }
    }

    /// A lowering that gave instructions.
    pub open spec fn done(
        count: Count,
        table: SymTableView,
        instructions: Seq<InstructionView>,
        tmp: Option<Operand>,
    ) -> Low {
        Low { count, table, result: Ok(InstructionsView { instructions, tmp }) }
    }

    /// The instructions so far; none after an error.
    pub open spec fn code(self) -> Seq<InstructionView> {
        match self.result {
            Ok(v) => v.instructions,
            Err(_) => Seq::empty(),
        }
    }

    /// The operand of the result; none after an error.
    pub open spec fn tmp(self) -> Option<Operand> {
        match self.result {
            Ok(v) => v.tmp,
            Err(_) => None,
        }
    }
}

/// The instruction of an arithmetic operator.
pub open spec fn arith_variant(op: BinOp) -> VariantView {
    match op {
        BinOp::Plus => VariantView::Plus,
        BinOp::Minus => VariantView::Minus,
        BinOp::Times => VariantView::Times,
        BinOp::Divide => VariantView::Divide,
    }
}

/// The instruction of a comparison that branches to `l` when it fails.
pub open spec fn compare_variant(op: CondOp, l: Label) -> VariantView {
    match op {
        CondOp::Equal => VariantView::Equal(l),
        CondOp::NotEqual => VariantView::NotEqual(l),
        CondOp::Less => VariantView::Less(l),
        CondOp::LessEqual => VariantView::LessEqual(l),
        CondOp::Greater => VariantView::Greater(l),
        CondOp::GreaterEqual => VariantView::GreaterEqual(l),
    }
}

/// A node over one operand, after its operand was lowered: the operand's
/// instructions, then the node's own. An allocation, a negation, a cast, a
/// dereference and an address write a new temporary of the node's type,
/// an assignment target in memory a new integer temporary; `free`, `print`
/// and a return with a value write nothing; `read` takes a bare variable.
#[verifier::opaque]
pub open spec fn unary(node: NodeView, l: Low) -> Low {
    match l.result {
        Err(_) => l,
        Ok(v) => match node {
            NodeView::Free { .. } => match v.tmp {
                None => Low::fail(l.count, l.table, ErrorKind::ThreeAC),
                Some(e) => Low::done(
                    l.count,
                    l.table,
                    v.instructions.push(
                        InstructionView::new(VariantView::Free, Bank::T, e, Operand::null()),
                    ),
                    None,
                ),
            },
            NodeView::Write { ctype, .. } => match v.tmp {
                None => Low::fail(l.count, l.table, ErrorKind::ThreeAC),
                Some(e) => Low::done(
                    l.count,
                    l.table,
                    v.instructions.push(
                        InstructionView::new(
                            if ctype is Str {
                                VariantView::PutS
                            } else {
                                VariantView::Put
                            },
                            bank_of(ctype),
                            e,
                            Operand::null(),
                        ),
                    ),
                    None,
                ),
            },
            NodeView::Read { ctype, .. } => if v.instructions.len() > 0 {
                Low::fail(l.count, l.table, ErrorKind::ThreeAC)
            } else {
                match v.tmp {
                    None => Low::fail(l.count, l.table, ErrorKind::ThreeAC),
                    Some(e) => Low::done(
                        l.count,
                        l.table,
                        seq![
                            InstructionView::new(
                                VariantView::Get,
                                bank_of(ctype),
                                e,
                                Operand::null(),
                            ),
                        ],
                        None,
                    ),
                }
            },
            NodeView::Return { ctype, function, .. } => match v.tmp {
                None => Low::fail(l.count, l.table, ErrorKind::ThreeAC),
                Some(e) => Low::done(
                    l.count,
                    l.table,
                    v.instructions.push(
                        InstructionView::new(VariantView::Save, bank_of(ctype), e, Operand::null()),
                    ).push(InstructionView::bare(VariantView::Jump(Label::FunctionTail(function)))),
                    None,
                ),
            },
            NodeView::Malloc { .. }
            | NodeView::UnaryOp { .. }
            | NodeView::Cast { .. }
            | NodeView::Address { .. }
            | NodeView::Dereference { .. }
            | NodeView::Reference { .. } => {
                let (count, made) = fresh(
                    if node is Address {
                        CType::Int
                    } else {
                        node.ctype()
                    },
                    l.count,
                );
                match made {
                    Err(e) => Low::fail(count, l.table, e),
                    Ok(tmp) => match v.tmp {
                        None => Low::fail(count, l.table, ErrorKind::ThreeAC),
                        Some(e) => Low::done(
                            count,
                            l.table,
                            v.instructions.push(
                                match node {
                                    NodeView::Malloc { .. } => InstructionView::new(
                                        VariantView::Malloc,
                                        Bank::T,
                                        tmp,
                                        e,
                                    ),
                                    NodeView::UnaryOp { ctype, .. } => InstructionView::new(
                                        VariantView::Negate,
                                        bank_of(ctype),
                                        tmp,
                                        e,
                                    ),
                                    NodeView::Cast { ctype, .. } => InstructionView::new(
                                        VariantView::Cast,
                                        bank_of(ctype),
                                        tmp,
                                        e,
                                    ),
                                    NodeView::Address { .. } => InstructionView::new(
                                        VariantView::Address,
                                        Bank::T,
                                        tmp,
                                        e,
                                    ),
                                    NodeView::Dereference { ctype, .. } => InstructionView::new(
                                        VariantView::Dereference,
                                        bank_of(ctype),
                                        tmp,
                                        e,
                                    ),
                                    _ => InstructionView::new(
                                        VariantView::Reference,
                                        Bank::T,
                                        tmp,
                                        e,
                                    ),
                                },
                            ),
                            Some(tmp),
                        ),
                    },
                }
            },
            _ => Low::fail(l.count, l.table, ErrorKind::ThreeAC),
        },
    }
}

/// A node over two operands, after both were lowered, the left one first:
/// the instructions of both, then the node's own. Arithmetic writes a new
/// temporary of the node's type. A comparison branches to the block
/// label that was handed out last, and takes a new integer temporary as
/// scratch where it compares floats. An assignment writes its target, or
/// the memory that its target addresses.
#[verifier::opaque]
pub open spec fn binary(node: NodeView, l: Low, r: Low) -> Low {
    match (l.result, r.result) {
        (Err(_), _) => l,
        (_, Err(_)) => r,
        (Ok(a), Ok(b)) => {
            let code = a.instructions + b.instructions;
            match node {
                NodeView::BinaryOp { ctype, op, .. } => {
                    let (count, made) = fresh(ctype, r.count);
                    match (made, a.tmp, b.tmp) {
                        (Err(e), _, _) => Low::fail(count, r.table, e),
                        (Ok(tmp), Some(m), Some(n)) => Low::done(
                            count,
                            r.table,
                            code.push(
                                InstructionView {
                                    variant: arith_variant(op),
                                    set: bank_of(ctype),
                                    opdt: tmp,
                                    opm: m,
                                    opn: n,
                                },
                            ),
                            Some(tmp),
                        ),
                        _ => Low::fail(count, r.table, ErrorKind::ThreeAC),
                    }
                },
                NodeView::ConditionalOp { ctype, op, .. } => {
                    let (count, made) = if ctype is Float {
                        fresh(CType::Int, r.count)
                    } else {
                        (r.count, Ok(Operand::null()))
                    };
                    match (made, a.tmp, b.tmp) {
                        (Err(e), _, _) => Low::fail(count, r.table, e),
                        (Ok(scratch), Some(m), Some(n)) => Low::done(
                            count,
                            r.table,
                            code.push(
                                InstructionView {
                                    variant: compare_variant(
                                        op,
                                        Label::BlockBranch(r.count.label),
                                    ),
                                    set: bank_of(ctype),
                                    opdt: scratch,
                                    opm: m,
                                    opn: n,
                                },
                            ),
                            None,
                        ),
                        _ => Low::fail(count, r.table, ErrorKind::ThreeAC),
                    }
                },
                NodeView::Assign { ctype, lhs, .. } => match (a.tmp, b.tmp) {
                    (Some(target), Some(value)) => Low::done(
                        r.count,
                        r.table,
                        code.push(
                            InstructionView::new(
                                if *lhs is Address {
                                    VariantView::AddrAssign
                                } else {
                                    VariantView::Assign
                                },
                                bank_of(ctype),
                                target,
                                value,
                            ),
                        ),
                        None,
                    ),
                    _ => Low::fail(r.count, r.table, ErrorKind::ThreeAC),
                },
                _ => Low::fail(r.count, r.table, ErrorKind::ThreeAC),
            }
        },
    }
}

/// A node without operands: a literal is loaded into a new temporary of
/// its type, an integer as its decimal text, a float as its own text; a
/// variable is its operand, without instructions; a return without a
/// value jumps to the exit of its function.
#[verifier::opaque]
pub open spec fn leaf(node: NodeView, c: Count, t: SymTableView) -> Low {
    match node {
        NodeView::FloatLit { ctype, val } => {
            let (count, made) = fresh(ctype, c);
            match made {
                Err(e) => Low::fail(count, t, e),
                Ok(tmp) => Low::done(
                    count,
                    t,
                    seq![
                        InstructionView::new(
                            VariantView::Load(val),
                            bank_of(ctype),
                            tmp,
                            Operand::null(),
                        ),
                    ],
                    Some(tmp),
                ),
            }
        },
        NodeView::IntLit { ctype, val } => {
            let (count, made) = fresh(ctype, c);
            match made {
                Err(e) => Low::fail(count, t, e),
                Ok(tmp) => Low::done(
                    count,
                    t,
                    seq![
                        InstructionView::new(
                            VariantView::Load(dec_int(val as int)),
                            bank_of(ctype),
                            tmp,
                            Operand::null(),
                        ),
                    ],
                    Some(tmp),
                ),
            }
        },
        NodeView::Var { ctype, ident, scope } => match t.get_symbol_in_scope(ident, scope) {
            Err(e) => Low::fail(c, t, e),
            Ok(symbol) => match Operand::of_symbol(ctype, symbol) {
                Err(e) => Low::fail(c, t, e),
                Ok(op) => Low::done(c, t, Seq::empty(), Some(op)),
            },
        },
        NodeView::Return { function, .. } => Low::done(
            c,
            t,
            seq![InstructionView::bare(VariantView::Jump(Label::FunctionTail(function)))],
            None,
        ),
        NodeView::Empty => Low::done(c, t, Seq::empty(), None),
        _ => Low::fail(c, t, ErrorKind::ThreeAC),
    }
}

/// The counters with the next block label handed out; none when the
/// labels are used up.
pub open spec fn next_label(c: Count) -> Option<Count> {
    if c.label == u32::MAX {
        None
    } else {
        Some(Count { label: (c.label + 1) as u32, ..c })
    }
}

/// A statement, after it was lowered, where a statement is due: it has no
/// operand.
pub open spec fn as_statement(l: Low) -> Low {
    match l.result {
        Err(_) => l,
        Ok(v) => if v.tmp is Some {
            Low::fail(l.count, l.table, ErrorKind::ThreeAC)
        } else {
            l
        },
    }
}

/// A branch under block label `n`: the condition, which branches to
/// `branch_n` when it fails; the statements for when it holds; a jump to
/// `jump_n`; `branch_n`; the statements for when it fails; `jump_n`.
pub open spec fn branching(n: u32, cond: Low, lhs: Low, rhs: Low) -> Low {
    Low::done(
        rhs.count,
        rhs.table,
        (cond.code() + lhs.code()).push(
            InstructionView::bare(VariantView::Jump(Label::BlockJump(n))),
        ).push(InstructionView::bare(VariantView::Label(Label::BlockBranch(n)))) + rhs.code().push(
            InstructionView::bare(VariantView::Label(Label::BlockJump(n))),
        ),
        None,
    )
}

/// A loop under block label `n`: `jump_n`; the condition, which branches
/// to `branch_n` when it fails; the body; a jump to `jump_n`; `branch_n`.
pub open spec fn looping(n: u32, cond: Low, body: Low) -> Low {
    Low::done(
        body.count,
        body.table,
        (seq![InstructionView::bare(VariantView::Label(Label::BlockJump(n)))] + cond.code()
            + body.code()).push(InstructionView::bare(VariantView::Jump(Label::BlockJump(n)))).push(
            InstructionView::bare(VariantView::Label(Label::BlockBranch(n))),
        ),
        None,
    )
}

/// The entry of a function: its temporaries start anew, and its scope
/// becomes current. Gives the function's identity and the offset of its
/// last local.
pub open spec fn enter(ident: Seq<char>, scope: usize, c: Count, t: SymTableView) -> (
    Count,
    SymTableView,
    Result<(i32, i32), ErrorKind>,
) {
    let count = Count { regular: 0, float: 0, ..c };
    match t.get_symbol_in_scope(ident, scope) {
        Err(e) => (count, t, Err(e)),
        Ok(symbol) => {
            let (table, r) = t.switch_scope(symbol.scope());
            match r {
                Err(e) => (count, table, Err(e)),
                Ok(_) => (
                    count,
                    table,
                    Ok((symbol.address(), table.current().get_addr_offset_val().1)),
                ),
            }
        },
    }
}

/// A function around its body: its head; room for its locals where it has
/// any; the body; its tail and the return. Its scope is left at the end.
pub open spec fn framed(id: i32, offset: i32, body: Low) -> Low {
    match as_statement(body).result {
        Err(_) => as_statement(body),
        Ok(v) => {
            let head = seq![InstructionView::bare(VariantView::Label(Label::FunctionHead(id)))];
            let room = if offset < 0 {
                seq![InstructionView::bare(VariantView::Alloc((-offset) as u32))]
            } else {
                Seq::empty()
            };
            let code = (head + room + v.instructions).push(
                InstructionView::bare(VariantView::Label(Label::FunctionTail(id))),
            ).push(InstructionView::bare(VariantView::Ret));
            let (table, r) = body.table.pop_scope();
            match r {
                Err(e) => Low::fail(body.count, table, e),
                Ok(_) => Low::done(body.count, table, code, None),
            }
        },
    }
}

/// A call, after its arguments were lowered into `args`: a new temporary
/// of the call's type takes the result, unless the type is `void`.
#[verifier::opaque]
pub open spec fn calling(
    node: NodeView,
    c: Count,
    t: SymTableView,
    code: Seq<InstructionView>,
    args: Seq<Operand>,
) -> Low {
    match node {
        NodeView::Call { ctype, ident, scope, .. } => {
            let (count, made) = new_tmp(ctype, c);
            match made {
                Err(e) => Low::fail(count, t, e),
                Ok(tmp) => match t.get_symbol_in_scope(ident, scope) {
                    Err(e) => Low::fail(count, t, e),
                    Ok(symbol) => Low::done(
                        count,
                        t,
                        code.push(
                            InstructionView::new(
                                VariantView::Call(Label::FunctionHead(symbol.address()), args),
                                bank_of(ctype),
                                match tmp {
                                    Some(op) => op,
                                    None => Operand::null(),
                                },
                                Operand::null(),
                            ),
                        ),
                        tmp,
                    ),
                },
            }
        },
        _ => Low::fail(c, t, ErrorKind::ThreeAC),
    }
}

/// The instructions of a node: those of its operands, left to right, then
/// its own.
pub open spec fn lower(node: NodeView, c: Count, t: SymTableView) -> Low
    decreases node, 0int, 0int,
{
    match node {
        NodeView::Empty
        | NodeView::FloatLit { .. }
        | NodeView::IntLit { .. }
        | NodeView::Var { .. } => leaf(node, c, t),
        NodeView::Free { expr } => unary(node, lower(*expr, c, t)),
        NodeView::Malloc { expr, .. } => unary(node, lower(*expr, c, t)),
        NodeView::Write { expr, .. } => unary(node, lower(*expr, c, t)),
        NodeView::UnaryOp { expr, .. } => unary(node, lower(*expr, c, t)),
        NodeView::Cast { expr, .. } => unary(node, lower(*expr, c, t)),
        NodeView::Address { expr, .. } => unary(node, lower(*expr, c, t)),
        NodeView::Dereference { expr, .. } => unary(node, lower(*expr, c, t)),
        NodeView::Reference { expr, .. } => unary(node, lower(*expr, c, t)),
        NodeView::Read { var, .. } => unary(node, lower(*var, c, t)),
        NodeView::Return { ctype, expr, .. } => if ctype is Void {
            leaf(node, c, t)
        } else {
            unary(node, lower(*expr, c, t))
        },
        NodeView::BinaryOp { lhs, rhs, .. } => {
            let l = lower(*lhs, c, t);
            if l.result is Err {
                l
            } else {
                binary(node, l, lower(*rhs, l.count, l.table))
            }
        },
        NodeView::ConditionalOp { lhs, rhs, .. } => {
            let l = lower(*lhs, c, t);
            if l.result is Err {
                l
            } else {
                binary(node, l, lower(*rhs, l.count, l.table))
            }
        },
        NodeView::Assign { lhs, rhs, .. } => {
            let l = match *lhs {
                NodeView::Address { expr, .. } => lower(*expr, c, t),
                _ => lower(*lhs, c, t),
            };
            if l.result is Err {
                l
            } else {
                binary(node, l, lower(*rhs, l.count, l.table))
            }
        },
        NodeView::IfElse { cond, lhs, rhs } => match next_label(c) {
            None => Low::fail(c, t, ErrorKind::ThreeAC),
            Some(bumped) => {
                let a = as_statement(lower(*cond, bumped, t));
                if a.result is Err {
                    a
                } else {
                    let b = as_statement(lower(*lhs, a.count, a.table));
                    if b.result is Err {
                        b
                    } else {
                        let d = as_statement(lower(*rhs, b.count, b.table));
                        if d.result is Err {
                            d
                        } else {
                            branching(bumped.label, a, b, d)
                        }
                    }
                }
            },
        },
        NodeView::While { cond, statements } => match next_label(c) {
            None => Low::fail(c, t, ErrorKind::ThreeAC),
            Some(bumped) => {
                let a = as_statement(lower(*cond, bumped, t));
                if a.result is Err {
                    a
                } else {
                    let b = as_statement(lower(*statements, a.count, a.table));
                    if b.result is Err {
                        b
                    } else {
                        looping(bumped.label, a, b)
                    }
                }
            },
        },
        NodeView::StatementList { statements } => lower_list(statements, 0, c, t, Seq::empty()),
        NodeView::Function { ident, scope, statements } => {
            let (count, table, entered) = enter(ident, scope, c, t);
            match entered {
                Err(e) => Low::fail(count, table, e),
                Ok((id, offset)) => framed(id, offset, lower(*statements, count, table)),
            }
        },
        NodeView::Call { arguments, .. } => {
            let (count, table, r) = lower_args(arguments, 0, c, t, Seq::empty(), Seq::empty());
            match r {
                Err(e) => Low::fail(count, table, e),
                Ok((code, args)) => calling(node, count, table, code, args),
            }
        },
    }
}

/// The instructions of the statements of a list from `pos` on, after
/// `code`.
pub open spec fn lower_list(
    list: Seq<NodeView>,
    pos: int,
    c: Count,
    t: SymTableView,
    code: Seq<InstructionView>,
) -> Low
    decreases list, list.len() - pos, 0int,
{
    if pos < 0 || pos >= list.len() {
        Low::done(c, t, code, None)
    } else {
        let l = as_statement(lower(list[pos], c, t));
        if l.result is Err {
            l
        } else {
            lower_list(list, pos + 1, l.count, l.table, code + l.code())
        }
    }
}

/// The instructions and the operands of the arguments of a call from `pos`
/// on, after `code` and `args`: each argument must have an operand.
pub open spec fn lower_args(
    list: Seq<NodeView>,
    pos: int,
    c: Count,
    t: SymTableView,
    code: Seq<InstructionView>,
    args: Seq<Operand>,
) -> (Count, SymTableView, Result<(Seq<InstructionView>, Seq<Operand>), ErrorKind>)
    decreases list, list.len() - pos, 0int,
{
    if pos < 0 || pos >= list.len() {
        (c, t, Ok((code, args)))
    } else {
        let l = lower(list[pos], c, t);
        match l.result {
            Err(e) => (l.count, l.table, Err(e)),
            Ok(v) => match v.tmp {
                None => (l.count, l.table, Err(ErrorKind::ThreeAC)),
                Some(op) => lower_args(
                    list,
                    pos + 1,
                    l.count,
                    l.table,
                    code + v.instructions,
                    args.push(op),
                ),
            },
        }
    }
}

/// What an exec lowering left, as the model has it.
pub open spec fn lowered(count: Count, table: SymTableView, r: Result<Instructions, Error>) -> Low {
    Low { count, table, result: crate::error::outcome(r) }
}

fn push(instructions: &mut VecDeque<Instruction>, i: Instruction)
    ensures
        views(final(instructions)@) == views(old(instructions)@).push(i@),
{
    instructions.push_back(i);
    assert(views(instructions@) =~= views(old(instructions)@).push(i@));
}

fn push_first(instructions: &mut VecDeque<Instruction>, i: Instruction)
    ensures
        views(final(instructions)@) == seq![i@] + views(old(instructions)@),
{
    instructions.push_front(i);
    assert(views(instructions@) =~= seq![i@] + views(old(instructions)@));
}

fn extend(instructions: &mut VecDeque<Instruction>, other: VecDeque<Instruction>)
    ensures
        views(final(instructions)@) == views(old(instructions)@) + views(other@),
{
    let ghost added = other@;
    let mut other = other;
    instructions.append(&mut other);
    assert(views(instructions@) =~= views(old(instructions)@) + views(added));
}

fn single(i: Instruction) -> (instructions: VecDeque<Instruction>)
    ensures
        views(instructions@) == seq![i@],
{
    let mut instructions: VecDeque<Instruction> = VecDeque::new();
    instructions.push_back(i);
    assert(views(instructions@) =~= seq![i@]);
    instructions
}

fn none() -> (instructions: VecDeque<Instruction>)
    ensures
        views(instructions@) == Seq::<InstructionView>::empty(),
{
    let instructions: VecDeque<Instruction> = VecDeque::new();
    assert(views(instructions@) =~= Seq::<InstructionView>::empty());
    instructions
}

fn operand_or(tmp: Option<Operand>, message: &str) -> (r: Result<Operand, Error>)
    ensures
        match r {
            Ok(op) => tmp == Some(op),
            Err(e) => tmp is None && e is ThreeAC,
        },
{
    match tmp {
        Some(op) => Ok(op),
        None => Err(Error::ThreeAC(String::from_str(message))),
    }
}

impl Count {
    /// Starts the temporaries of a function anew; block labels go on.
    pub fn reset(&mut self)
        ensures
            *final(self) == (Count { regular: 0, float: 0, label: old(self).label }),
    {
        self.regular = 0;
        self.float = 0;
    }
}

impl CType {
    /// The register bank that a value of this type is computed in.
    pub fn to_instruction_set(&self) -> (b: Bank)
        ensures
            b == bank_of(*self),
    {
        match self {
            CType::Float => Bank::F,
            _ => Bank::T,
        }
    }
}

impl Operand {
    /// A new temporary for a value of a type; none for `void`.
    pub fn new_tmp(ctype: &CType, count: &mut Count) -> (r: Result<Option<Operand>, Error>)
        ensures
            (*final(count), crate::error::plain(r)) == new_tmp(*ctype, *old(count)),
    {
        match ctype {
            CType::Void => Ok(None),
            CType::Float => {
                if count.float == u32::MAX {
                    return Err(Error::ThreeAC(String::from_str("new_tmp: out of float temporaries")));
                }
                count.float += 1;
                Ok(
                    Some(
                        Operand {
                            variant: operand::Variant::TempFloat(count.float),
                            otype: operand::Type::F,
                        },
                    ),
                )
            },
            _ => {
                if count.regular == u32::MAX {
                    return Err(Error::ThreeAC(String::from_str("new_tmp: out of temporaries")));
                }
                count.regular += 1;
                Ok(
                    Some(
                        Operand {
                            variant: operand::Variant::Temp(count.regular),
                            otype: operand::Type::T,
                        },
                    ),
                )
            },
        }
    }
}

fn fresh_tmp(ctype: &CType, count: &mut Count) -> (r: Result<Operand, Error>)
    ensures
        (*final(count), crate::error::plain(r)) == fresh(*ctype, *old(count)),
{
    match Operand::new_tmp(ctype, count) {
        Ok(Some(op)) => Ok(op),
        Ok(None) => Err(Error::Type),
        Err(e) => Err(e),
    }
}

impl Instructions {
    /// Lowers a node of the syntax tree to instructions.
    pub fn from_ast(node: &Node, count: &mut Count, symtable: &mut SymTable) -> (r: Result<
        Instructions,
        Error,
    >)
        requires
            old(symtable).wf(),
        ensures
            final(symtable).wf(),
            lowered(*final(count), final(symtable)@, r) == lower(
                node@,
                *old(count),
                old(symtable)@,
            ),
        decreases node, 1int,
    {
        proof {
            reveal(leaf);
        }
        match node {
            Node::Assign { .. } => Self::from_assign(node, count, symtable),
            Node::Free { .. } => Self::from_free(node, count, symtable),
            Node::Malloc { .. } => Self::from_malloc(node, count, symtable),
            Node::Read { .. } => Self::from_read(node, count, symtable),
            Node::Return { .. } => Self::from_return(node, count, symtable),
            Node::StatementList { .. } => Self::from_statement_list(node, count, symtable),
            Node::Write { .. } => Self::from_write(node, count, symtable),
            Node::IfElse { .. } => Self::from_if_else(node, count, symtable),
            Node::While { .. } => Self::from_while(node, count, symtable),
            Node::BinaryOp { .. } => Self::from_binary_op(node, count, symtable),
            Node::ConditionalOp { .. } => Self::from_conditional_op(node, count, symtable),
            Node::UnaryOp { .. } => Self::from_unary_op(node, count, symtable),
            Node::Cast { .. } => Self::from_cast(node, count, symtable),
            Node::Address { .. } => Self::from_address(node, count, symtable),
            Node::Dereference { .. } => Self::from_dereference(node, count, symtable),
            Node::Reference { .. } => Self::from_reference(node, count, symtable),
            Node::Function { .. } => Self::from_function(node, count, symtable),
            Node::Call { .. } => Self::from_call(node, count, symtable),
            Node::FloatLit { ctype, val } => Self::from_float_lit(ctype, val, count, symtable),
            Node::IntLit { ctype, val } => Self::from_int_lit(ctype, *val, count, symtable),
            Node::Var { ctype, ident, scope } => Self::from_var(ctype, ident, *scope, symtable, count),
            Node::Empty => Ok(Instructions { instructions: none(), tmp: None }),
        }
    }

    fn from_free(node: &Node, count: &mut Count, symtable: &mut SymTable) -> (r: Result<
        Instructions,
        Error,
    >)
        requires
            old(symtable).wf(),
            node is Free,
        ensures
            final(symtable).wf(),
            lowered(*final(count), final(symtable)@, r) == lower(
                node@,
                *old(count),
                old(symtable)@,
            ),
        decreases node, 0int,
    {
        proof {
            reveal(unary);
        }
        match node {
            Node::Free { expr } => {
                let (mut instructions, operand) = match Self::from_ast(expr, count, symtable) {
                    Ok(i) => i.split(),
                    Err(e) => {
                        return Err(e);
                    },
                };
                let operand = match operand_or(operand, "from_free: expression does not have an operand") {
                    Ok(op) => op,
                    Err(e) => {
                        return Err(e);
                    },
                };
                push(&mut instructions, Instruction::free(operand));
                Ok(Instructions { instructions, tmp: None })
            },
            _ => Err(Error::ThreeAC(String::from_str("from_free: expression does not have an operand"))),
        }
    }

    fn from_malloc(node: &Node, count: &mut Count, symtable: &mut SymTable) -> (r: Result<
        Instructions,
        Error,
    >)
        requires
            old(symtable).wf(),
            node is Malloc,
        ensures
            final(symtable).wf(),
            lowered(*final(count), final(symtable)@, r) == lower(
                node@,
                *old(count),
                old(symtable)@,
            ),
        decreases node, 0int,
    {
        proof {
            reveal(unary);
        }
        match node {
            Node::Malloc { ctype, expr } => {
                let (mut instructions, operand) = match Self::from_ast(expr, count, symtable) {
                    Ok(i) => i.split(),
                    Err(e) => {
                        return Err(e);
                    },
                };
                let tmp = match fresh_tmp(ctype, count) {
                    Ok(t) => t,
                    Err(e) => {
                        return Err(e);
                    },
                };
                let operand = match operand_or(operand, "from_malloc: expression does not have an operand") {
                    Ok(op) => op,
                    Err(e) => {
                        return Err(e);
                    },
                };
                push(&mut instructions, Instruction::malloc(tmp, operand));
                Ok(Instructions { instructions, tmp: Some(tmp) })
            },
            _ => Err(Error::ThreeAC(String::from_str("from_malloc: expression does not have an operand"))),
        }
    }

    fn from_write(node: &Node, count: &mut Count, symtable: &mut SymTable) -> (r: Result<
        Instructions,
        Error,
    >)
        requires
            old(symtable).wf(),
            node is Write,
        ensures
            final(symtable).wf(),
            lowered(*final(count), final(symtable)@, r) == lower(
                node@,
                *old(count),
                old(symtable)@,
            ),
        decreases node, 0int,
    {
        proof {
            reveal(unary);
        }
        match node {
            Node::Write { ctype, expr } => {
                let (mut instructions, operand) = match Self::from_ast(expr, count, symtable) {
                    Ok(i) => i.split(),
                    Err(e) => {
                        return Err(e);
                    },
                };
                let operand = match operand_or(operand, "from_write: expression does not have an operand") {
                    Ok(op) => op,
                    Err(e) => {
                        return Err(e);
                    },
                };
                let string_variant = match ctype {
                    CType::Str => true,
                    _ => false,
                };
                push(
                    &mut instructions,
                    Instruction::put(ctype.to_instruction_set(), operand, string_variant),
                );
                Ok(Instructions { instructions, tmp: None })
            },
            _ => Err(Error::ThreeAC(String::from_str("from_write: expression does not have an operand"))),
        }
    }

    fn from_unary_op(node: &Node, count: &mut Count, symtable: &mut SymTable) -> (r: Result<
        Instructions,
        Error,
    >)
        requires
            old(symtable).wf(),
            node is UnaryOp,
        ensures
            final(symtable).wf(),
            lowered(*final(count), final(symtable)@, r) == lower(
                node@,
                *old(count),
                old(symtable)@,
            ),
        decreases node, 0int,
    {
        proof {
            reveal(unary);
        }
        match node {
            Node::UnaryOp { ctype, expr } => {
                let (mut instructions, operand) = match Self::from_ast(expr, count, symtable) {
                    Ok(i) => i.split(),
                    Err(e) => {
                        return Err(e);
                    },
                };
                let tmp = match fresh_tmp(ctype, count) {
                    Ok(t) => t,
                    Err(e) => {
                        return Err(e);
                    },
                };
                let operand = match operand_or(operand, "from_unary_op: expr does not have an operand") {
                    Ok(op) => op,
                    Err(e) => {
                        return Err(e);
                    },
                };
                push(&mut instructions, Instruction::negate(ctype.to_instruction_set(), tmp, operand));
                Ok(Instructions { instructions, tmp: Some(tmp) })
            },
            _ => Err(Error::ThreeAC(String::from_str("from_unary_op: expr does not have an operand"))),
        }
    }

    fn from_cast(node: &Node, count: &mut Count, symtable: &mut SymTable) -> (r: Result<
        Instructions,
        Error,
    >)
        requires
            old(symtable).wf(),
            node is Cast,
        ensures
            final(symtable).wf(),
            lowered(*final(count), final(symtable)@, r) == lower(
                node@,
                *old(count),
                old(symtable)@,
            ),
        decreases node, 0int,
    {
        proof {
            reveal(unary);
        }
        match node {
            Node::Cast { ctype, expr } => {
                let (mut instructions, operand) = match Self::from_ast(expr, count, symtable) {
                    Ok(i) => i.split(),
                    Err(e) => {
                        return Err(e);
                    },
                };
                let tmp = match fresh_tmp(ctype, count) {
                    Ok(t) => t,
                    Err(e) => {
                        return Err(e);
                    },
                };
                let operand = match operand_or(operand, "from_cast: expr does not have an operand") {
                    Ok(op) => op,
                    Err(e) => {
                        return Err(e);
                    },
                };
                push(&mut instructions, Instruction::cast(ctype.to_instruction_set(), tmp, operand));
                Ok(Instructions { instructions, tmp: Some(tmp) })
            },
            _ => Err(Error::ThreeAC(String::from_str("from_cast: expr does not have an operand"))),
        }
    }

    fn from_address(node: &Node, count: &mut Count, symtable: &mut SymTable) -> (r: Result<
        Instructions,
        Error,
    >)
        requires
            old(symtable).wf(),
            node is Address,
        ensures
            final(symtable).wf(),
            lowered(*final(count), final(symtable)@, r) == lower(
                node@,
                *old(count),
                old(symtable)@,
            ),
        decreases node, 0int,
    {
        proof {
            reveal(unary);
        }
        match node {
            Node::Address { expr, .. } => {
                let (mut instructions, operand) = match Self::from_ast(expr, count, symtable) {
                    Ok(i) => i.split(),
                    Err(e) => {
                        return Err(e);
                    },
                };
                let tmp = match fresh_tmp(&CType::Int, count) {
                    Ok(t) => t,
                    Err(e) => {
                        return Err(e);
                    },
                };
                let operand = match operand_or(operand, "from_address: expr does not have an operand") {
                    Ok(op) => op,
                    Err(e) => {
                        return Err(e);
                    },
                };
                push(&mut instructions, Instruction::address(tmp, operand));
                Ok(Instructions { instructions, tmp: Some(tmp) })
            },
            _ => Err(Error::ThreeAC(String::from_str("from_address: expr does not have an operand"))),
        }
    }

    fn from_dereference(node: &Node, count: &mut Count, symtable: &mut SymTable) -> (r: Result<
        Instructions,
        Error,
    >)
        requires
            old(symtable).wf(),
            node is Dereference,
        ensures
            final(symtable).wf(),
            lowered(*final(count), final(symtable)@, r) == lower(
                node@,
                *old(count),
                old(symtable)@,
            ),
        decreases node, 0int,
    {
        proof {
            reveal(unary);
        }
        match node {
            Node::Dereference { ctype, expr } => {
                let (mut instructions, operand) = match Self::from_ast(expr, count, symtable) {
                    Ok(i) => i.split(),
                    Err(e) => {
                        return Err(e);
                    },
                };
                let tmp = match fresh_tmp(ctype, count) {
                    Ok(t) => t,
                    Err(e) => {
                        return Err(e);
                    },
                };
                let operand = match operand_or(operand, "from_dereference: expr does not have an operand") {
                    Ok(op) => op,
                    Err(e) => {
                        return Err(e);
                    },
                };
                push(&mut instructions, Instruction::dereference(ctype.to_instruction_set(), tmp, operand));
                Ok(Instructions { instructions, tmp: Some(tmp) })
            },
            _ => Err(Error::ThreeAC(String::from_str("from_dereference: expr does not have an operand"))),
        }
    }

    fn from_reference(node: &Node, count: &mut Count, symtable: &mut SymTable) -> (r: Result<
        Instructions,
        Error,
    >)
        requires
            old(symtable).wf(),
            node is Reference,
        ensures
            final(symtable).wf(),
            lowered(*final(count), final(symtable)@, r) == lower(
                node@,
                *old(count),
                old(symtable)@,
            ),
        decreases node, 0int,
    {
        proof {
            reveal(unary);
        }
        match node {
            Node::Reference { ctype, expr } => {
                let (mut instructions, operand) = match Self::from_ast(expr, count, symtable) {
                    Ok(i) => i.split(),
                    Err(e) => {
                        return Err(e);
                    },
                };
                let tmp = match fresh_tmp(ctype, count) {
                    Ok(t) => t,
                    Err(e) => {
                        return Err(e);
                    },
                };
                let operand = match operand_or(operand, "from_reference: expr does not have an operand") {
                    Ok(op) => op,
                    Err(e) => {
                        return Err(e);
                    },
                };
                push(&mut instructions, Instruction::reference(tmp, operand));
                Ok(Instructions { instructions, tmp: Some(tmp) })
            },
            _ => Err(Error::ThreeAC(String::from_str("from_reference: expr does not have an operand"))),
        }
    }

    fn from_read(node: &Node, count: &mut Count, symtable: &mut SymTable) -> (r: Result<
        Instructions,
        Error,
    >)
        requires
            old(symtable).wf(),
            node is Read,
        ensures
            final(symtable).wf(),
            lowered(*final(count), final(symtable)@, r) == lower(
                node@,
                *old(count),
                old(symtable)@,
            ),
        decreases node, 0int,
    {
        proof {
            reveal(unary);
        }
        match node {
            Node::Read { ctype, var } => {
                let (var_instr, operand) = match Self::from_ast(var, count, symtable) {
                    Ok(i) => i.split(),
                    Err(e) => {
                        return Err(e);
                    },
                };
                if var_instr.len() > 0 {
                    return Err(
                        Error::ThreeAC(String::from_str("from_read: var should not have instructions")),
                    );
                }
                let operand = match operand_or(operand, "from_read: var does not have operand") {
                    Ok(op) => op,
                    Err(e) => {
                        return Err(e);
                    },
                };
                Ok(
                    Instructions {
                        instructions: single(Instruction::get(ctype.to_instruction_set(), operand)),
                        tmp: None,
                    },
                )
            },
            _ => Err(Error::ThreeAC(String::from_str("from_read: expected a read"))),
        }
    }

    fn from_return(node: &Node, count: &mut Count, symtable: &mut SymTable) -> (r: Result<
        Instructions,
        Error,
    >)
        requires
            old(symtable).wf(),
            node is Return,
        ensures
            final(symtable).wf(),
            lowered(*final(count), final(symtable)@, r) == lower(
                node@,
                *old(count),
                old(symtable)@,
            ),
        decreases node, 0int,
    {
        proof {
            reveal(unary);
            reveal(leaf);
        }
        match node {
            Node::Return { ctype, expr, function } => {
                if let CType::Void = ctype {
                    return Ok(
                        Instructions {
                            instructions: single(
                                Instruction::jump(Label::FunctionTail(*function)),
                            ),
                            tmp: None,
                        },
                    );
                }
                let (mut instructions, operand) = match Self::from_ast(expr, count, symtable) {
                    Ok(i) => i.split(),
                    Err(e) => {
                        return Err(e);
                    },
                };
                let operand = match operand_or(
                    operand,
                    "from_return: expression does not have operand",
                ) {
                    Ok(op) => op,
                    Err(e) => {
                        return Err(e);
                    },
                };
                push(&mut instructions, Instruction::save(ctype.to_instruction_set(), operand));
                push(&mut instructions, Instruction::jump(Label::FunctionTail(*function)));
                Ok(Instructions { instructions, tmp: None })
            },
            _ => Err(Error::ThreeAC(String::from_str("from_return: expected a return"))),
        }
    }

    fn from_assign(node: &Node, count: &mut Count, symtable: &mut SymTable) -> (r: Result<
        Instructions,
        Error,
    >)
        requires
            old(symtable).wf(),
            node is Assign,
        ensures
            final(symtable).wf(),
            lowered(*final(count), final(symtable)@, r) == lower(
                node@,
                *old(count),
                old(symtable)@,
            ),
        decreases node, 0int,
    {
        proof {
            reveal(binary);
        }
        match node {
            Node::Assign { ctype, lhs: target, rhs: value } => {
                let is_addr_assign = match &**target {
                    Node::Address { .. } => true,
                    _ => false,
                };
                let first: &Node = match &**target {
                    Node::Address { expr, .. } => expr,
                    _ => target,
                };
                let (mut instructions, lhs) = match Self::from_ast(first, count, symtable) {
                    Ok(i) => i.split(),
                    Err(e) => {
                        return Err(e);
                    },
                };
                let (rhs_instrs, rhs) = match Self::from_ast(value, count, symtable) {
                    Ok(i) => i.split(),
                    Err(e) => {
                        return Err(e);
                    },
                };
                extend(&mut instructions, rhs_instrs);
                let lhs = match operand_or(lhs, "from_assign: lhs does not have operand") {
                    Ok(op) => op,
                    Err(e) => {
                        return Err(e);
                    },
                };
                let rhs = match operand_or(rhs, "from_assign: rhs does not have operand") {
                    Ok(op) => op,
                    Err(e) => {
                        return Err(e);
                    },
                };
                if is_addr_assign {
                    push(
                        &mut instructions,
                        Instruction::addr_assign(ctype.to_instruction_set(), lhs, rhs),
                    );
                } else {
                    push(&mut instructions, Instruction::assign(ctype.to_instruction_set(), lhs, rhs));
                }
                Ok(Instructions { instructions, tmp: None })
            },
            _ => Err(Error::ThreeAC(String::from_str("from_assign: expected an assignment"))),
        }
    }

    fn from_binary_op(node: &Node, count: &mut Count, symtable: &mut SymTable) -> (r: Result<
        Instructions,
        Error,
    >)
        requires
            old(symtable).wf(),
            node is BinaryOp,
        ensures
            final(symtable).wf(),
            lowered(*final(count), final(symtable)@, r) == lower(
                node@,
                *old(count),
                old(symtable)@,
            ),
        decreases node, 0int,
    {
        proof {
            reveal(binary);
        }
        match node {
            Node::BinaryOp { ctype, op, lhs: left, rhs: right } => {
                let (mut instructions, lhs) = match Self::from_ast(left, count, symtable) {
                    Ok(i) => i.split(),
                    Err(e) => {
                        return Err(e);
                    },
                };
                let (rhs_instrs, rhs) = match Self::from_ast(right, count, symtable) {
                    Ok(i) => i.split(),
                    Err(e) => {
                        return Err(e);
                    },
                };
                extend(&mut instructions, rhs_instrs);
                let tmp = match fresh_tmp(ctype, count) {
                    Ok(t) => t,
                    Err(e) => {
                        return Err(e);
                    },
                };
                let opm = match operand_or(lhs, "from_binary_op: lhs does not have an operand") {
                    Ok(op) => op,
                    Err(e) => {
                        return Err(e);
                    },
                };
                let opn = match operand_or(rhs, "from_binary_op: rhs does not have an operand") {
                    Ok(op) => op,
                    Err(e) => {
                        return Err(e);
                    },
                };
                push(
                    &mut instructions,
                    Instruction {
                        variant: match op {
                            BinOp::Plus => Variant::Plus,
                            BinOp::Minus => Variant::Minus,
                            BinOp::Times => Variant::Times,
                            BinOp::Divide => Variant::Divide,
                        },
                        set: ctype.to_instruction_set(),
                        opdt: tmp,
                        opm,
                        opn,
                    },
                );
                Ok(Instructions { instructions, tmp: Some(tmp) })
            },
            _ => Err(Error::ThreeAC(String::from_str("from_binary_op: expected an operation"))),
        }
    }

    fn from_conditional_op(node: &Node, count: &mut Count, symtable: &mut SymTable) -> (r: Result<
        Instructions,
        Error,
    >)
        requires
            old(symtable).wf(),
            node is ConditionalOp,
        ensures
            final(symtable).wf(),
            lowered(*final(count), final(symtable)@, r) == lower(
                node@,
                *old(count),
                old(symtable)@,
            ),
        decreases node, 0int,
    {
        proof {
            reveal(binary);
        }
        match node {
            Node::ConditionalOp { ctype, op, lhs: left, rhs: right } => {
                let (mut instructions, lhs) = match Self::from_ast(left, count, symtable) {
                    Ok(i) => i.split(),
                    Err(e) => {
                        return Err(e);
                    },
                };
                let (rhs_instrs, rhs) = match Self::from_ast(right, count, symtable) {
                    Ok(i) => i.split(),
                    Err(e) => {
                        return Err(e);
                    },
                };
                extend(&mut instructions, rhs_instrs);
                let target = Label::BlockBranch(count.label);
                let opdt = match ctype {
                    CType::Float => match fresh_tmp(&CType::Int, count) {
                        Ok(t) => t,
                        Err(e) => {
                            return Err(e);
                        },
                    },
                    _ => Operand::new_null(),
                };
                let opm = match operand_or(
                    lhs,
                    "from_conditional_op: lhs does not have an operand",
                ) {
                    Ok(op) => op,
                    Err(e) => {
                        return Err(e);
                    },
                };
                let opn = match operand_or(
                    rhs,
                    "from_conditional_op: rhs does not have an operand",
                ) {
                    Ok(op) => op,
                    Err(e) => {
                        return Err(e);
                    },
                };
                push(
                    &mut instructions,
                    Instruction {
                        variant: match op {
                            CondOp::Equal => Variant::Equal(target),
                            CondOp::NotEqual => Variant::NotEqual(target),
                            CondOp::Less => Variant::Less(target),
                            CondOp::LessEqual => Variant::LessEqual(target),
                            CondOp::Greater => Variant::Greater(target),
                            CondOp::GreaterEqual => Variant::GreaterEqual(target),
                        },
                        set: ctype.to_instruction_set(),
                        opdt,
                        opm,
                        opn,
                    },
                );
                Ok(Instructions { instructions, tmp: None })
            },
            _ => Err(Error::ThreeAC(String::from_str("from_conditional_op: expected a comparison"))),
        }
    }

    /// Lowers a node where a statement is due.
    fn from_statement(node: &Node, count: &mut Count, symtable: &mut SymTable, message: &str) -> (r:
        Result<VecDeque<Instruction>, Error>)
        requires
            old(symtable).wf(),
        ensures
            final(symtable).wf(),
            ({
                let l = as_statement(lower(node@, *old(count), old(symtable)@));
                &&& l.count == *final(count)
                &&& l.table == final(symtable)@
                &&& match r {
                    Ok(code) => l.result is Ok && views(code@) == l.code() && l.tmp() is None,
                    Err(e) => l.result == Err::<InstructionsView, ErrorKind>(e.kind()),
                }
            }),
        decreases node, 2int,
    {
        let (instructions, tmp) = match Self::from_ast(node, count, symtable) {
            Ok(i) => i.split(),
            Err(e) => {
                return Err(e);
            },
        };
        if tmp.is_some() {
            return Err(Error::ThreeAC(String::from_str(message)));
        }
        Ok(instructions)
    }

    fn from_if_else(node: &Node, count: &mut Count, symtable: &mut SymTable) -> (r: Result<
        Instructions,
        Error,
    >)
        requires
            old(symtable).wf(),
            node is IfElse,
        ensures
            final(symtable).wf(),
            lowered(*final(count), final(symtable)@, r) == lower(
                node@,
                *old(count),
                old(symtable)@,
            ),
        decreases node, 0int,
    {
        match node {
            Node::IfElse { cond, lhs, rhs } => {
                if count.label == u32::MAX {
                    return Err(Error::ThreeAC(String::from_str("from_if_else: out of labels")));
                }
                count.label += 1;
                let label = count.label;
                let end = Label::BlockJump(label);
                let mut instructions = match Self::from_statement(
                    cond,
                    count,
                    symtable,
                    "from_if_else: conditional statements should not have operands",
                ) {
                    Ok(i) => i,
                    Err(e) => {
                        return Err(e);
                    },
                };
                let linstrs = match Self::from_statement(
                    lhs,
                    count,
                    symtable,
                    "from_if_else: statements should not have operands",
                ) {
                    Ok(i) => i,
                    Err(e) => {
                        return Err(e);
                    },
                };
                let mut rinstrs = match Self::from_statement(
                    rhs,
                    count,
                    symtable,
                    "from_if_else: statements should not have operands",
                ) {
                    Ok(i) => i,
                    Err(e) => {
                        return Err(e);
                    },
                };
                extend(&mut instructions, linstrs);
                push(&mut instructions, Instruction::jump(end));
                push(&mut instructions, Instruction::label(Label::BlockBranch(label)));
                push(&mut rinstrs, Instruction::label(end));
                extend(&mut instructions, rinstrs);
                Ok(Instructions { instructions, tmp: None })
            },
            _ => Err(Error::ThreeAC(String::from_str("from_if_else: expected a branch"))),
        }
    }

    fn from_while(node: &Node, count: &mut Count, symtable: &mut SymTable) -> (r: Result<
        Instructions,
        Error,
    >)
        requires
            old(symtable).wf(),
            node is While,
        ensures
            final(symtable).wf(),
            lowered(*final(count), final(symtable)@, r) == lower(
                node@,
                *old(count),
                old(symtable)@,
            ),
        decreases node, 0int,
    {
        match node {
            Node::While { cond, statements } => {
                if count.label == u32::MAX {
                    return Err(Error::ThreeAC(String::from_str("from_while: out of labels")));
                }
                count.label += 1;
                let label = count.label;
                let head = Label::BlockJump(label);
                let cond_instrs = match Self::from_statement(
                    cond,
                    count,
                    symtable,
                    "from_while: conditional statements should not have operands",
                ) {
                    Ok(i) => i,
                    Err(e) => {
                        return Err(e);
                    },
                };
                let body = match Self::from_statement(
                    statements,
                    count,
                    symtable,
                    "from_while: statements should not have operands",
                ) {
                    Ok(i) => i,
                    Err(e) => {
                        return Err(e);
                    },
                };
                let mut instructions = single(Instruction::label(head));
                extend(&mut instructions, cond_instrs);
                extend(&mut instructions, body);
                push(&mut instructions, Instruction::jump(head));
                push(&mut instructions, Instruction::label(Label::BlockBranch(label)));
                Ok(Instructions { instructions, tmp: None })
            },
            _ => Err(Error::ThreeAC(String::from_str("from_while: expected a loop"))),
        }
    }

    fn from_statement_list(node: &Node, count: &mut Count, symtable: &mut SymTable) -> (r: Result<
        Instructions,
        Error,
    >)
        requires
            old(symtable).wf(),
            node is StatementList,
        ensures
            final(symtable).wf(),
            lowered(*final(count), final(symtable)@, r) == lower(
                node@,
                *old(count),
                old(symtable)@,
            ),
        decreases node, 0int,
    {
        match node {
            Node::StatementList { statements } => {
                let ghost list = node@->StatementList_statements;
                let mut instructions = none();
                let mut pos: usize = 0;
                while pos < statements.len()
                    invariant
                        symtable.wf(),
                        pos <= statements@.len(),
                        *node == (Node::StatementList { statements: *statements }),
                        list == node@->StatementList_statements,
                        list.len() == statements@.len(),
                        forall|k: int| 0 <= k < list.len() ==> list[k] == (#[trigger] statements@[k])@,
                        lower(node@, *old(count), old(symtable)@) == lower_list(
                            list,
                            pos as int,
                            *count,
                            symtable@,
                            views(instructions@),
                        ),
                    decreases statements@.len() - pos,
                {
                    proof {
                        assert(node->StatementList_statements == *statements);
                        assert(decreases_to!(*node => node->StatementList_statements));
                        assert(decreases_to!(*statements => statements[pos as int]));
                    }
                    let instrs = match Self::from_statement(
                        &statements[pos],
                        count,
                        symtable,
                        "from_statement_list: statements should not have operands",
                    ) {
                        Ok(i) => i,
                        Err(e) => {
                            return Err(e);
                        },
                    };
                    extend(&mut instructions, instrs);
                    pos += 1;
                }
                Ok(Instructions { instructions, tmp: None })
            },
            _ => Err(Error::ThreeAC(String::from_str("from_statement_list: expected a list"))),
        }
    }

    fn from_function(node: &Node, count: &mut Count, symtable: &mut SymTable) -> (r: Result<
        Instructions,
        Error,
    >)
        requires
            old(symtable).wf(),
            node is Function,
        ensures
            final(symtable).wf(),
            lowered(*final(count), final(symtable)@, r) == lower(
                node@,
                *old(count),
                old(symtable)@,
            ),
        decreases node, 0int,
    {
        match node {
            Node::Function { ident, scope, statements } => {
                count.reset();
                let symbol = match symtable.get_symbol_in_scope(ident, *scope) {
                    Ok(s) => s,
                    Err(e) => {
                        return Err(e);
                    },
                };
                match symtable.switch_scope(symbol.scope()) {
                    Ok(()) => {},
                    Err(e) => {
                        return Err(e);
                    },
                }
                let (_, local_offset) = symtable.get_addr_offset_val();
                let body = match Self::from_statement(
                    statements,
                    count,
                    symtable,
                    "from_function: statements should not have operands",
                ) {
                    Ok(i) => i,
                    Err(e) => {
                        return Err(e);
                    },
                };
                let mut instructions = single(
                    Instruction::label(Label::FunctionHead(symbol.address())),
                );
                let ghost head = views(instructions@);
                let ghost inner = views(body@);
                if local_offset < 0 {
                    push(&mut instructions, Instruction::alloc_frame(local_offset));
                }
                let ghost room = if local_offset < 0 {
                    seq![InstructionView::bare(VariantView::Alloc((-local_offset) as u32))]
                } else {
                    Seq::empty()
                };
                assert(views(instructions@) =~= head + room);
                extend(&mut instructions, body);
                assert(views(instructions@) =~= head + room + inner);
                push(&mut instructions, Instruction::label(Label::FunctionTail(symbol.address())));
                push(&mut instructions, Instruction::ret());
                match symtable.pop_scope() {
                    Ok(()) => {},
                    Err(e) => {
                        return Err(e);
                    },
                }
                Ok(Instructions { instructions, tmp: None })
            },
            _ => Err(Error::ThreeAC(String::from_str("from_function: expected a function"))),
        }
    }

    fn from_call(node: &Node, count: &mut Count, symtable: &mut SymTable) -> (r: Result<
        Instructions,
        Error,
    >)
        requires
            old(symtable).wf(),
            node is Call,
        ensures
            final(symtable).wf(),
            lowered(*final(count), final(symtable)@, r) == lower(
                node@,
                *old(count),
                old(symtable)@,
            ),
        decreases node, 0int,
    {
        proof {
            reveal(calling);
        }
        match node {
            Node::Call { ctype, ident, scope, arguments } => {
                let ghost list = node@->arguments;
                let mut args: Vec<Operand> = Vec::new();
                let mut instructions = none();
                let mut pos: usize = 0;
                while pos < arguments.len()
                    invariant
                        symtable.wf(),
                        pos <= arguments@.len(),
                        node->Call_arguments == *arguments,
                        node is Call,
                        list == node@->arguments,
                        list.len() == arguments@.len(),
                        forall|k: int| 0 <= k < list.len() ==> list[k] == (#[trigger] arguments@[k])@,
                        lower_args(
                            list,
                            0,
                            *old(count),
                            old(symtable)@,
                            Seq::empty(),
                            Seq::empty(),
                        ) == lower_args(
                            list,
                            pos as int,
                            *count,
                            symtable@,
                            views(instructions@),
                            args@,
                        ),
                    decreases arguments@.len() - pos,
                {
                    proof {
                        assert(decreases_to!(*node => node->Call_arguments));
                        assert(decreases_to!(*arguments => arguments[pos as int]));
                    }
                    let (instrs, a) = match Self::from_ast(&arguments[pos], count, symtable) {
                        Ok(i) => i.split(),
                        Err(e) => {
                            return Err(e);
                        },
                    };
                    let a = match operand_or(a, "from_call: expression does not have operand") {
                        Ok(op) => op,
                        Err(e) => {
                            return Err(e);
                        },
                    };
                    extend(&mut instructions, instrs);
                    args.push(a);
                    pos += 1;
                }
                let tmp = match Operand::new_tmp(ctype, count) {
                    Ok(t) => t,
                    Err(e) => {
                        return Err(e);
                    },
                };
                let symbol = match symtable.get_symbol_in_scope(ident, *scope) {
                    Ok(s) => s,
                    Err(e) => {
                        return Err(e);
                    },
                };
                push(
                    &mut instructions,
                    Instruction::call(
                        Label::FunctionHead(symbol.address()),
                        args,
                        ctype.to_instruction_set(),
                        match tmp {
                            Some(o) => o,
                            None => Operand::new_null(),
                        },
                    ),
                );
                Ok(Instructions { instructions, tmp })
            },
            _ => Err(Error::ThreeAC(String::from_str("from_call: expected a call"))),
        }
    }

    fn from_float_lit(ctype: &CType, val: &String, count: &mut Count, symtable: &SymTable) -> (r:
        Result<Instructions, Error>)
        ensures
            lowered(*final(count), symtable@, r) == leaf(
                NodeView::FloatLit { ctype: *ctype, val: val@ },
                *old(count),
                symtable@,
            ),
    {
        proof {
            reveal(leaf);
        }
        let tmp = match fresh_tmp(ctype, count) {
            Ok(t) => t,
            Err(e) => {
                return Err(e);
            },
        };
        Ok(
            Instructions {
                instructions: single(
                    Instruction::load(ctype.to_instruction_set(), tmp, val.clone()),
                ),
                tmp: Some(tmp),
            },
        )
    }

    fn from_int_lit(ctype: &CType, val: i32, count: &mut Count, symtable: &SymTable) -> (r: Result<
        Instructions,
        Error,
    >)
        ensures
            lowered(*final(count), symtable@, r) == leaf(
                NodeView::IntLit { ctype: *ctype, val },
                *old(count),
                symtable@,
            ),
    {
        proof {
            reveal(leaf);
        }
        let tmp = match fresh_tmp(ctype, count) {
            Ok(t) => t,
            Err(e) => {
                return Err(e);
            },
        };
        Ok(
            Instructions {
                instructions: single(
                    Instruction::load(ctype.to_instruction_set(), tmp, decimal(val as i64)),
                ),
                tmp: Some(tmp),
            },
        )
    }

    fn from_var(ctype: &CType, ident: &String, scope: usize, symtable: &SymTable, count: &Count) -> (r:
        Result<Instructions, Error>)
        ensures
            lowered(*count, symtable@, r) == leaf(
                NodeView::Var { ctype: *ctype, ident: ident@, scope },
                *count,
                symtable@,
            ),
    {
        proof {
            reveal(leaf);
        }
        let symbol = match symtable.get_symbol_in_scope(ident, scope) {
            Ok(s) => s,
            Err(e) => {
                return Err(e);
            },
        };
        let operand = match Operand::from_symbol(ctype, symbol) {
            Ok(op) => op,
            Err(e) => {
                return Err(e);
            },
        };
        Ok(Instructions { instructions: none(), tmp: Some(operand) })
    }

    fn split(self) -> (r: (VecDeque<Instruction>, Option<Operand>))
        ensures
            r.0 == self.instructions,
            r.1 == self.tmp,
    {
        (self.instructions, self.tmp)
    }

    /// Puts the text header, which enters the program at function `func`,
    /// before the instructions, and the string table `strs` after them.
    pub fn add_headers(self, func: i32, strs: String) -> (r: Instructions)
        ensures
            r@ == (InstructionsView {
                instructions: (seq![
                    InstructionView::bare(VariantView::HeaderText(Label::FunctionHead(func))),
                ] + self@.instructions).push(
                    InstructionView::bare(VariantView::HeaderStrings(strs@)),
                ),
                tmp: self@.tmp,
            }),
    {
        let mut instructions = self.instructions;
        push_first(&mut instructions, Instruction::header_text(Label::FunctionHead(func)));
        push(&mut instructions, Instruction::header_strings(strs));
        let r = Instructions { instructions, tmp: self.tmp };
        assert(r@.instructions =~= (seq![
            InstructionView::bare(VariantView::HeaderText(Label::FunctionHead(func))),
        ] + self@.instructions).push(InstructionView::bare(VariantView::HeaderStrings(strs@))));
        r
    }
}

/// The lines of the first `k` instructions of a stream in a listing.
pub open spec fn listing_upto(s: Seq<InstructionView>, k: int) -> Seq<char>
    decreases k,
{
    if k <= 0 {
        Seq::empty()
    } else {
        listing_upto(s, k - 1) + s[k - 1].text()
    }
}

impl Instructions {
    /// The listing of the stream: the line of each instruction, in order.
    pub fn to_text(&self) -> (s: String)
        ensures
            s@ == listing_upto(self@.instructions, self@.instructions.len() as int),
    {
        let mut s = String::new();
        let mut k: usize = 0;
        while k < self.instructions.len()
            invariant
                k <= self.instructions@.len(),
                s@ == listing_upto(views(self.instructions@), k as int),
            decreases self.instructions@.len() - k,
        {
            assert(views(self.instructions@)[k as int] == self.instructions@[k as int]@);
            self.instructions[k].push_to(&mut s);
            k += 1;
        }
        s
    }
}

} // verus!
