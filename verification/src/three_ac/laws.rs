//! What holds of every lowered program: how often each temporary is
//! written and each label marked.

use super::instruction::Bank;
use super::instruction::InstructionView;
use super::instruction::VariantView;
use super::instructions::binary;
use super::instructions::calling;
use super::instructions::fresh;
use super::instructions::leaf;
use super::instructions::lower;
use super::instructions::lower_args;
use super::instructions::lower_list;
use super::instructions::new_tmp;
use super::instructions::unary;
use super::instructions::Count;
use super::instructions::Low;
use super::label::Label;
use super::operand;
use super::operand::Operand;
use crate::ast::node::NodeView;
use crate::symtable::object::SymTableView;
use crate::symtable::CType;
use vstd::prelude::*;

verus! {

/// How many instructions of a stream satisfy `p`.
pub open spec fn count(s: Seq<InstructionView>, p: spec_fn(InstructionView) -> bool) -> nat
    decreases s.len(),
{
    if s.len() == 0 {
        0
    } else {
        count(s.drop_last(), p) + if p(s.last()) {
            1nat
        } else {
            0nat
        }
    }
}

/// One more instruction adds one to the count where `p` holds of it.
pub proof fn lemma_count_push(
    s: Seq<InstructionView>,
    x: InstructionView,
    p: spec_fn(InstructionView) -> bool,
)
    ensures
        count(s.push(x), p) == count(s, p) + if p(x) {
            1nat
        } else {
            0nat
        },
{
    assert(s.push(x).drop_last() =~= s);
}

/// The count over two streams, one after the other, is the sum of their counts.
pub proof fn lemma_count_add(
    a: Seq<InstructionView>,
    b: Seq<InstructionView>,
    p: spec_fn(InstructionView) -> bool,
)
    ensures
        count(a + b, p) == count(a, p) + count(b, p),
    decreases b.len(),
{
    if b.len() == 0 {
        assert(a + b =~= a);
    } else {
        lemma_count_add(a, b.drop_last(), p);
        assert((a + b).drop_last() =~= a + b.drop_last());
    }
}

/// The count of one instruction, and of none.
pub proof fn lemma_count_one(x: InstructionView, p: spec_fn(InstructionView) -> bool)
    ensures
        count(seq![x], p) == if p(x) {
            1nat
        } else {
            0nat
        },
        count(Seq::<InstructionView>::empty(), p) == 0,
{
    lemma_count_push(Seq::<InstructionView>::empty(), x, p);
    assert(Seq::<InstructionView>::empty().push(x) =~= seq![x]);
}

/// The operand that an instruction writes: its destination, where it has
/// one; the scratch of a comparison of floats.
pub open spec fn writes(i: InstructionView) -> Option<Operand> {
    match i.variant {
        VariantView::Assign
        | VariantView::Malloc
        | VariantView::Negate
        | VariantView::Cast
        | VariantView::Address
        | VariantView::Dereference
        | VariantView::Reference
        | VariantView::Get
        | VariantView::Load(_)
        | VariantView::Plus
        | VariantView::Minus
        | VariantView::Times
        | VariantView::Divide
        | VariantView::Call(_, _) => Some(i.opdt),
        VariantView::Equal(_)
        | VariantView::NotEqual(_)
        | VariantView::Less(_)
        | VariantView::LessEqual(_)
        | VariantView::Greater(_)
        | VariantView::GreaterEqual(_) => if i.set == Bank::F {
            Some(i.opdt)
        } else {
            None
        },
        _ => None,
    }
}

/// Whether an instruction writes `op`.
pub open spec fn defines(op: Operand) -> spec_fn(InstructionView) -> bool {
    |i: InstructionView| writes(i) == Some(op)
}

/// The integer temporary of number `n`.
pub open spec fn temp(n: u32) -> Operand {
    Operand { variant: operand::Variant::Temp(n), otype: operand::Type::T }
}

/// The float temporary of number `n`.
pub open spec fn temp_float(n: u32) -> Operand {
    Operand { variant: operand::Variant::TempFloat(n), otype: operand::Type::F }
}

/// Whether `op` is one of the temporaries handed out between two states of
/// the counters.
pub open spec fn handed_out(op: Operand, before: Count, after: Count) -> bool {
    match op.variant {
        operand::Variant::Temp(n) => op.otype == operand::Type::T && before.regular < n
            <= after.regular,
        operand::Variant::TempFloat(n) => op.otype == operand::Type::F && before.float < n
            <= after.float,
        _ => false,
    }
}

/// Whether `op` is a temporary, in its own bank.
pub open spec fn is_temp(op: Operand) -> bool {
    match op.variant {
        operand::Variant::Temp(_) => op.otype == operand::Type::T,
        operand::Variant::TempFloat(_) => op.otype == operand::Type::F,
        _ => false,
    }
}

/// How often `op` is written between two states of the counters: once if
/// it was handed out between them, else never.
pub open spec fn once(op: Operand, before: Count, after: Count) -> nat {
    if handed_out(op, before, after) {
        1
    } else {
        0
    }
}

/// No function is defined inside the node.
pub open spec fn function_free(node: NodeView) -> bool
    decreases node,
{
    match node {
        NodeView::Function { .. } => false,
        NodeView::Empty
        | NodeView::FloatLit { .. }
        | NodeView::IntLit { .. }
        | NodeView::Var { .. } => true,
        NodeView::Free { expr } => function_free(*expr),
        NodeView::Malloc { expr, .. } => function_free(*expr),
        NodeView::Write { expr, .. } => function_free(*expr),
        NodeView::UnaryOp { expr, .. } => function_free(*expr),
        NodeView::Cast { expr, .. } => function_free(*expr),
        NodeView::Address { expr, .. } => function_free(*expr),
        NodeView::Dereference { expr, .. } => function_free(*expr),
        NodeView::Reference { expr, .. } => function_free(*expr),
        NodeView::Read { var, .. } => function_free(*var),
        NodeView::Return { expr, .. } => function_free(*expr),
        NodeView::BinaryOp { lhs, rhs, .. } => function_free(*lhs) && function_free(*rhs),
        NodeView::ConditionalOp { lhs, rhs, .. } => function_free(*lhs) && function_free(*rhs),
        NodeView::Assign { lhs, rhs, .. } => function_free(*lhs) && function_free(*rhs),
        NodeView::IfElse { cond, lhs, rhs } => function_free(*cond) && function_free(*lhs)
            && function_free(*rhs),
        NodeView::While { cond, statements } => function_free(*cond) && function_free(*statements),
        NodeView::StatementList { statements } => forall|k: int|
            0 <= k < statements.len() ==> function_free(#[trigger] statements[k]),
        NodeView::Call { arguments, .. } => forall|k: int|
            0 <= k < arguments.len() ==> function_free(#[trigger] arguments[k]),
    }
}

/// Every assignment inside the node is to a variable or to memory.
pub open spec fn named_targets(node: NodeView) -> bool
    decreases node,
{
    match node {
        NodeView::Empty
        | NodeView::FloatLit { .. }
        | NodeView::IntLit { .. }
        | NodeView::Var { .. } => true,
        NodeView::Free { expr } => named_targets(*expr),
        NodeView::Malloc { expr, .. } => named_targets(*expr),
        NodeView::Write { expr, .. } => named_targets(*expr),
        NodeView::UnaryOp { expr, .. } => named_targets(*expr),
        NodeView::Cast { expr, .. } => named_targets(*expr),
        NodeView::Address { expr, .. } => named_targets(*expr),
        NodeView::Dereference { expr, .. } => named_targets(*expr),
        NodeView::Reference { expr, .. } => named_targets(*expr),
        NodeView::Read { var, .. } => named_targets(*var),
        NodeView::Return { expr, .. } => named_targets(*expr),
        NodeView::BinaryOp { lhs, rhs, .. } => named_targets(*lhs) && named_targets(*rhs),
        NodeView::ConditionalOp { lhs, rhs, .. } => named_targets(*lhs) && named_targets(*rhs),
        NodeView::Assign { lhs, rhs, .. } => (*lhs is Var || *lhs is Address) && named_targets(*lhs)
            && named_targets(*rhs),
        NodeView::IfElse { cond, lhs, rhs } => named_targets(*cond) && named_targets(*lhs)
            && named_targets(*rhs),
        NodeView::While { cond, statements } => named_targets(*cond) && named_targets(*statements),
        NodeView::StatementList { statements } => forall|k: int|
            0 <= k < statements.len() ==> named_targets(#[trigger] statements[k]),
        NodeView::Function { statements, .. } => named_targets(*statements),
        NodeView::Call { arguments, .. } => forall|k: int|
            0 <= k < arguments.len() ==> named_targets(#[trigger] arguments[k]),
    }
}

/// A new temporary is the next of its bank.
pub proof fn lemma_fresh(ctype: CType, c: Count)
    ensures
        match fresh(ctype, c) {
            (after, Ok(op)) => is_temp(op) && handed_out(op, c, after) && c.regular <= after.regular
                <= c.regular + 1 && c.float <= after.float <= c.float + 1 && after.label == c.label
                && after.regular + after.float == c.regular + c.float + 1,
            (after, Err(_)) => after == c,
        },
        match new_tmp(ctype, c) {
            (after, Ok(Some(op))) => fresh(ctype, c) == (after, Ok::<Operand, crate::error::ErrorKind>(op)),
            (after, _) => after == c,
        },
{
}

/// What holds of the temporary `op` after a lowering that started with
/// the counters `c`: the counters did not go back; `op` is written once
/// if it was handed out meanwhile, else never; and a result in a
/// temporary is in one that was handed out meanwhile.
pub open spec fn temps_once(l: Low, c: Count, op: Operand) -> bool {
    l.result is Ok ==> {
        &&& c.regular <= l.count.regular
        &&& c.float <= l.count.float
        &&& c.label <= l.count.label
        &&& count(l.code(), defines(op)) == once(op, c, l.count)
        &&& (l.tmp() matches Some(r) ==> is_temp(r) ==> handed_out(r, c, l.count))
    }
}

proof fn lemma_leaf_temps(node: NodeView, c: Count, t: SymTableView, op: Operand)
    requires
        is_temp(op),
    ensures
        temps_once(leaf(node, c, t), c, op),
{
    reveal(leaf);
    let p = defines(op);
    match node {
        NodeView::FloatLit { ctype, val } => {
            lemma_fresh(ctype, c);
            let (count, made) = fresh(ctype, c);
            if made is Ok {
                lemma_count_one(
                    InstructionView::new(
                        VariantView::Load(val),
                        super::instructions::bank_of(ctype),
                        made->Ok_0,
                        Operand::null(),
                    ),
                    p,
                );
            }
        },
        NodeView::IntLit { ctype, val } => {
            lemma_fresh(ctype, c);
            let (count, made) = fresh(ctype, c);
            if made is Ok {
                lemma_count_one(
                    InstructionView::new(
                        VariantView::Load(crate::text::dec_int(val as int)),
                        super::instructions::bank_of(ctype),
                        made->Ok_0,
                        Operand::null(),
                    ),
                    p,
                );
            }
        },
        NodeView::Var { .. } => {
            lemma_count_one(InstructionView::bare(VariantView::Ret), p);
        },
        NodeView::Return { function, .. } => {
            lemma_count_one(
                InstructionView::bare(VariantView::Jump(Label::FunctionTail(function))),
                p,
            );
        },
        NodeView::Empty => {
            lemma_count_one(InstructionView::bare(VariantView::Ret), p);
        },
        _ => {},
    }
}

proof fn lemma_unary_temps(node: NodeView, l: Low, c: Count, op: Operand)
    requires
        is_temp(op),
        temps_once(l, c, op),
    ensures
        temps_once(unary(node, l), c, op),
{
    reveal(unary);
    let p = defines(op);
    let u = unary(node, l);
    if l.result is Ok && u.result is Ok {
        let v = l.result->Ok_0;
        match node {
            NodeView::Free { .. } => {
                lemma_count_push(v.instructions, u.code().last(), p);
                assert(u.code() == v.instructions.push(u.code().last()));
            },
            NodeView::Write { .. } => {
                lemma_count_push(v.instructions, u.code().last(), p);
                assert(u.code() == v.instructions.push(u.code().last()));
            },
            NodeView::Read { ctype, .. } => {
                let e = v.tmp->Some_0;
                let x = InstructionView::new(
                    VariantView::Get,
                    super::instructions::bank_of(ctype),
                    e,
                    Operand::null(),
                );
                lemma_count_one(x, p);
                assert(v.instructions =~= Seq::<InstructionView>::empty());
                assert(u.code() == seq![x]);
            },
            NodeView::Return { ctype, function, .. } => {
                let e = v.tmp->Some_0;
                let save = InstructionView::new(
                    VariantView::Save,
                    super::instructions::bank_of(ctype),
                    e,
                    Operand::null(),
                );
                let jump = InstructionView::bare(VariantView::Jump(Label::FunctionTail(function)));
                lemma_count_push(v.instructions, save, p);
                lemma_count_push(v.instructions.push(save), jump, p);
                assert(u.code() == v.instructions.push(save).push(jump));
            },
            NodeView::Malloc { .. }
            | NodeView::UnaryOp { .. }
            | NodeView::Cast { .. }
            | NodeView::Address { .. }
            | NodeView::Dereference { .. }
            | NodeView::Reference { .. } => {
                let ctype = if node is Address {
                    CType::Int
                } else {
                    node.ctype()
                };
                lemma_fresh(ctype, l.count);
                lemma_count_push(v.instructions, u.code().last(), p);
                assert(u.code() == v.instructions.push(u.code().last()));
            },
            _ => {},
        }
    }
}

proof fn lemma_binary_temps(node: NodeView, l: Low, r: Low, c: Count, op: Operand)
    requires
        is_temp(op),
        l.result is Ok,
        temps_once(l, c, op),
        temps_once(r, l.count, op),
        !(node is Assign),
    ensures
        temps_once(binary(node, l, r), c, op),
{
    reveal(binary);
    let p = defines(op);
    let u = binary(node, l, r);
    if r.result is Ok && u.result is Ok {
        let a = l.result->Ok_0;
        let b = r.result->Ok_0;
        let code = a.instructions + b.instructions;
        lemma_count_add(a.instructions, b.instructions, p);
        match node {
            NodeView::BinaryOp { ctype, .. } => {
                lemma_fresh(ctype, r.count);
                lemma_count_push(code, u.code().last(), p);
                assert(u.code() == code.push(u.code().last()));
            },
            NodeView::ConditionalOp { ctype, .. } => {
                lemma_fresh(CType::Int, r.count);
                lemma_count_push(code, u.code().last(), p);
                assert(u.code() == code.push(u.code().last()));
            },
            _ => {},
        }
    }
}

/// A variable lowers to its operand, which is no temporary.
proof fn lemma_var_operand(node: NodeView, c: Count, t: SymTableView)
    requires
        node is Var,
    ensures
        lower(node, c, t) == leaf(node, c, t),
        lower(node, c, t).tmp() matches Some(op) ==> !is_temp(op),
{
    reveal(leaf);
}

/// In the instructions of a node that defines no function and assigns
/// only to variables and to memory, each temporary that was handed out is
/// written once, and no other temporary is written.
pub proof fn lemma_lower_temps(node: NodeView, c: Count, t: SymTableView, op: Operand)
    requires
        is_temp(op),
        function_free(node),
        named_targets(node),
    ensures
        temps_once(lower(node, c, t), c, op),
    decreases node, 1int,
{
    match node {
        NodeView::Empty
        | NodeView::FloatLit { .. }
        | NodeView::IntLit { .. }
        | NodeView::Var { .. } => {
            lemma_leaf_temps(node, c, t, op);
        },
        NodeView::Free { .. }
        | NodeView::Malloc { .. }
        | NodeView::Write { .. }
        | NodeView::UnaryOp { .. }
        | NodeView::Cast { .. }
        | NodeView::Address { .. }
        | NodeView::Dereference { .. }
        | NodeView::Reference { .. }
        | NodeView::Read { .. }
        | NodeView::Return { .. } => {
            lemma_temps_over_one(node, c, t, op);
        },
        NodeView::BinaryOp { .. } | NodeView::ConditionalOp { .. } => {
            lemma_temps_over_two(node, c, t, op);
        },
        NodeView::Assign { .. } => {
            lemma_temps_assign(node, c, t, op);
        },
        NodeView::IfElse { .. } => {
            lemma_temps_if(node, c, t, op);
        },
        NodeView::While { .. } => {
            lemma_temps_while(node, c, t, op);
        },
        NodeView::StatementList { statements } => {
            lemma_count_one(InstructionView::bare(VariantView::Ret), defines(op));
            lemma_list_temps(statements, 0, c, t, Seq::empty(), op);
        },
        NodeView::Function { .. } => {},
        NodeView::Call { .. } => {
            lemma_temps_call(node, c, t, op);
        },
    }
}

proof fn lemma_temps_over_one(node: NodeView, c: Count, t: SymTableView, op: Operand)
    requires
        is_temp(op),
        function_free(node),
        named_targets(node),
        node is Free || node is Malloc || node is Write || node is UnaryOp || node is Cast
            || node is Address || node is Dereference || node is Reference || node is Read
            || node is Return,
    ensures
        temps_once(lower(node, c, t), c, op),
    decreases node, 0int,
{
    match node {
        NodeView::Free { expr } => {
            lemma_lower_temps(*expr, c, t, op);
            lemma_unary_temps(node, lower(*expr, c, t), c, op);
        },
        NodeView::Malloc { expr, .. } => {
            lemma_lower_temps(*expr, c, t, op);
            lemma_unary_temps(node, lower(*expr, c, t), c, op);
        },
        NodeView::Write { expr, .. } => {
            lemma_lower_temps(*expr, c, t, op);
            lemma_unary_temps(node, lower(*expr, c, t), c, op);
        },
        NodeView::UnaryOp { expr, .. } => {
            lemma_lower_temps(*expr, c, t, op);
            lemma_unary_temps(node, lower(*expr, c, t), c, op);
        },
        NodeView::Cast { expr, .. } => {
            lemma_lower_temps(*expr, c, t, op);
            lemma_unary_temps(node, lower(*expr, c, t), c, op);
        },
        NodeView::Address { expr, .. } => {
            lemma_lower_temps(*expr, c, t, op);
            lemma_unary_temps(node, lower(*expr, c, t), c, op);
        },
        NodeView::Dereference { expr, .. } => {
            lemma_lower_temps(*expr, c, t, op);
            lemma_unary_temps(node, lower(*expr, c, t), c, op);
        },
        NodeView::Reference { expr, .. } => {
            lemma_lower_temps(*expr, c, t, op);
            lemma_unary_temps(node, lower(*expr, c, t), c, op);
        },
        NodeView::Read { var, .. } => {
            lemma_lower_temps(*var, c, t, op);
            lemma_unary_temps(node, lower(*var, c, t), c, op);
        },
        NodeView::Return { ctype, expr, .. } => {
            if ctype is Void {
                lemma_leaf_temps(node, c, t, op);
            } else {
                lemma_lower_temps(*expr, c, t, op);
                lemma_unary_temps(node, lower(*expr, c, t), c, op);
            }
        },
        _ => {},
    }
}

proof fn lemma_temps_over_two(node: NodeView, c: Count, t: SymTableView, op: Operand)
    requires
        is_temp(op),
        function_free(node),
        named_targets(node),
        node is BinaryOp || node is ConditionalOp,
    ensures
        temps_once(lower(node, c, t), c, op),
    decreases node, 0int,
{
    match node {
        NodeView::BinaryOp { lhs, rhs, .. } => {
            lemma_lower_temps(*lhs, c, t, op);
            let l = lower(*lhs, c, t);
            if l.result is Ok {
                lemma_lower_temps(*rhs, l.count, l.table, op);
                lemma_binary_temps(node, l, lower(*rhs, l.count, l.table), c, op);
            }
        },
        NodeView::ConditionalOp { lhs, rhs, .. } => {
            lemma_lower_temps(*lhs, c, t, op);
            let l = lower(*lhs, c, t);
            if l.result is Ok {
                lemma_lower_temps(*rhs, l.count, l.table, op);
                lemma_binary_temps(node, l, lower(*rhs, l.count, l.table), c, op);
            }
        },
        _ => {},
    }
}

proof fn lemma_temps_assign(node: NodeView, c: Count, t: SymTableView, op: Operand)
    requires
        is_temp(op),
        function_free(node),
        named_targets(node),
        node is Assign,
    ensures
        temps_once(lower(node, c, t), c, op),
    decreases node, 0int,
{
    match node {
        NodeView::Assign { lhs, rhs, .. } => {
            assert(function_free(*lhs) && named_targets(*lhs));
            assert(function_free(*rhs) && named_targets(*rhs));
            match *lhs {
                NodeView::Address { expr, .. } => {
                    assert(function_free(*expr) && named_targets(*expr));
                    lemma_lower_temps(*expr, c, t, op);
                    let l = lower(*expr, c, t);
                    if l.result is Ok {
                        lemma_lower_temps(*rhs, l.count, l.table, op);
                        let r = lower(*rhs, l.count, l.table);
                        lemma_assign_temps(node, l, r, c, op);
                    }
                },
                _ => {
                    lemma_lower_temps(*lhs, c, t, op);
                    lemma_var_operand(*lhs, c, t);
                    let l = lower(*lhs, c, t);
                    if l.result is Ok {
                        lemma_lower_temps(*rhs, l.count, l.table, op);
                        let r = lower(*rhs, l.count, l.table);
                        lemma_assign_temps(node, l, r, c, op);
                    }
                },
            }
        },
        _ => {},
    }
}

proof fn lemma_temps_if(node: NodeView, c: Count, t: SymTableView, op: Operand)
    requires
        is_temp(op),
        function_free(node),
        named_targets(node),
        node is IfElse,
    ensures
        temps_once(lower(node, c, t), c, op),
    decreases node, 0int,
{
    let p = defines(op);
    match node {
        NodeView::IfElse { cond, lhs, rhs } => {
            match super::instructions::next_label(c) {
                None => {},
                Some(bumped) => {
                    lemma_lower_temps(*cond, bumped, t, op);
                    let a = super::instructions::as_statement(lower(*cond, bumped, t));
                    if a.result is Ok {
                        lemma_lower_temps(*lhs, a.count, a.table, op);
                        let b = super::instructions::as_statement(lower(*lhs, a.count, a.table));
                        if b.result is Ok {
                            lemma_lower_temps(*rhs, b.count, b.table, op);
                            let d = super::instructions::as_statement(
                                lower(*rhs, b.count, b.table),
                            );
                            if d.result is Ok {
                                lemma_branching_count(bumped.label, a, b, d, p);
                                lemma_marks_write_nothing(bumped.label, op);
                            }
                        }
                    }
                },
            }
        },
        _ => {},
    }
}

proof fn lemma_temps_while(node: NodeView, c: Count, t: SymTableView, op: Operand)
    requires
        is_temp(op),
        function_free(node),
        named_targets(node),
        node is While,
    ensures
        temps_once(lower(node, c, t), c, op),
    decreases node, 0int,
{
    let p = defines(op);
    match node {
        NodeView::While { cond, statements } => {
            match super::instructions::next_label(c) {
                None => {},
                Some(bumped) => {
                    lemma_lower_temps(*cond, bumped, t, op);
                    let a = super::instructions::as_statement(lower(*cond, bumped, t));
                    if a.result is Ok {
                        lemma_lower_temps(*statements, a.count, a.table, op);
                        let b = super::instructions::as_statement(
                            lower(*statements, a.count, a.table),
                        );
                        if b.result is Ok {
                            lemma_looping_count(bumped.label, a, b, p);
                            lemma_marks_write_nothing(bumped.label, op);
                        }
                    }
                },
            }
        },
        _ => {},
    }
}

proof fn lemma_temps_call(node: NodeView, c: Count, t: SymTableView, op: Operand)
    requires
        is_temp(op),
        function_free(node),
        named_targets(node),
        node is Call,
    ensures
        temps_once(lower(node, c, t), c, op),
    decreases node, 0int,
{
    reveal(calling);
    let p = defines(op);
    match node {
        NodeView::Call { ctype, arguments, .. } => {
            lemma_count_one(InstructionView::bare(VariantView::Ret), p);
            lemma_args_temps(arguments, 0, c, t, Seq::empty(), Seq::empty(), op);
            let (count, table, r) = lower_args(arguments, 0, c, t, Seq::empty(), Seq::empty());
            if r is Ok {
                let (code, args) = r->Ok_0;
                lemma_fresh(ctype, count);
                let u = calling(node, count, table, code, args);
                if u.result is Ok {
                    lemma_count_push(code, u.code().last(), p);
                    assert(u.code() == code.push(u.code().last()));
                }
            }
        },
        _ => {},
    }
}

/// The jump and the labels of a branch or a loop write nothing.
proof fn lemma_marks_write_nothing(n: u32, op: Operand)
    ensures
        count(
            seq![InstructionView::bare(VariantView::Jump(Label::BlockJump(n)))],
            defines(op),
        ) == 0,
        count(
            seq![InstructionView::bare(VariantView::Label(Label::BlockBranch(n)))],
            defines(op),
        ) == 0,
        count(
            seq![InstructionView::bare(VariantView::Label(Label::BlockJump(n)))],
            defines(op),
        ) == 0,
{
    lemma_count_one(InstructionView::bare(VariantView::Jump(Label::BlockJump(n))), defines(op));
    lemma_count_one(InstructionView::bare(VariantView::Label(Label::BlockBranch(n))), defines(op));
    lemma_count_one(InstructionView::bare(VariantView::Label(Label::BlockJump(n))), defines(op));
}

/// How many instructions of a branch satisfy `p`: those of its three
/// parts, and of its jump and its two labels.
pub proof fn lemma_branching_count(
    n: u32,
    a: Low,
    b: Low,
    d: Low,
    p: spec_fn(InstructionView) -> bool,
)
    ensures
        ({
            let j = InstructionView::bare(VariantView::Jump(Label::BlockJump(n)));
            let lb = InstructionView::bare(VariantView::Label(Label::BlockBranch(n)));
            let lj = InstructionView::bare(VariantView::Label(Label::BlockJump(n)));
            count(super::instructions::branching(n, a, b, d).code(), p) == count(a.code(), p)
                + count(b.code(), p) + count(d.code(), p) + count(seq![j], p) + count(seq![lb], p)
                + count(seq![lj], p)
        }),
{
    let j = InstructionView::bare(VariantView::Jump(Label::BlockJump(n)));
    let lb = InstructionView::bare(VariantView::Label(Label::BlockBranch(n)));
    let lj = InstructionView::bare(VariantView::Label(Label::BlockJump(n)));
    lemma_count_one(j, p);
    lemma_count_one(lb, p);
    lemma_count_one(lj, p);
    lemma_count_add(a.code(), b.code(), p);
    lemma_count_push(a.code() + b.code(), j, p);
    lemma_count_push((a.code() + b.code()).push(j), lb, p);
    lemma_count_push(d.code(), lj, p);
    lemma_count_add((a.code() + b.code()).push(j).push(lb), d.code().push(lj), p);
}

/// How many instructions of a loop satisfy `p`: those of its two parts,
/// and of its jump and its two labels.
pub proof fn lemma_looping_count(n: u32, a: Low, b: Low, p: spec_fn(InstructionView) -> bool)
    ensures
        ({
            let j = InstructionView::bare(VariantView::Jump(Label::BlockJump(n)));
            let lb = InstructionView::bare(VariantView::Label(Label::BlockBranch(n)));
            let lj = InstructionView::bare(VariantView::Label(Label::BlockJump(n)));
            count(super::instructions::looping(n, a, b).code(), p) == count(a.code(), p) + count(
                b.code(),
                p,
            ) + count(seq![j], p) + count(seq![lb], p) + count(seq![lj], p)
        }),
{
    let j = InstructionView::bare(VariantView::Jump(Label::BlockJump(n)));
    let lb = InstructionView::bare(VariantView::Label(Label::BlockBranch(n)));
    let lj = InstructionView::bare(VariantView::Label(Label::BlockJump(n)));
    lemma_count_one(j, p);
    lemma_count_one(lb, p);
    lemma_count_one(lj, p);
    lemma_count_add(seq![lj], a.code(), p);
    lemma_count_add(seq![lj] + a.code(), b.code(), p);
    lemma_count_push(seq![lj] + a.code() + b.code(), j, p);
    lemma_count_push((seq![lj] + a.code() + b.code()).push(j), lb, p);
}

proof fn lemma_assign_temps(node: NodeView, l: Low, r: Low, c: Count, op: Operand)
    requires
        is_temp(op),
        node is Assign,
        named_targets(node),
        l.result is Ok,
        temps_once(l, c, op),
        temps_once(r, l.count, op),
        !(*(node->Assign_lhs) is Address) ==> (l.tmp() matches Some(target) ==> !is_temp(target)),
    ensures
        temps_once(binary(node, l, r), c, op),
{
    reveal(binary);
    let p = defines(op);
    let u = binary(node, l, r);
    if r.result is Ok && u.result is Ok {
        let a = l.result->Ok_0;
        let b = r.result->Ok_0;
        let code = a.instructions + b.instructions;
        lemma_count_add(a.instructions, b.instructions, p);
        lemma_count_push(code, u.code().last(), p);
        assert(u.code() == code.push(u.code().last()));
    }
}

proof fn lemma_list_temps(
    list: Seq<NodeView>,
    pos: int,
    c: Count,
    t: SymTableView,
    code: Seq<InstructionView>,
    op: Operand,
)
    requires
        is_temp(op),
        0 <= pos,
        forall|k: int| 0 <= k < list.len() ==> function_free(#[trigger] list[k]),
        forall|k: int| 0 <= k < list.len() ==> named_targets(#[trigger] list[k]),
    ensures
        ({
            let l = lower_list(list, pos, c, t, code);
            l.result is Ok ==> {
                &&& c.regular <= l.count.regular
                &&& c.float <= l.count.float
                &&& c.label <= l.count.label
                &&& count(l.code(), defines(op)) == count(code, defines(op)) + once(op, c, l.count)
                &&& l.tmp() is None
            }
        }),
    decreases list, list.len() - pos,
{
    if pos < list.len() {
        lemma_lower_temps(list[pos], c, t, op);
        let l = super::instructions::as_statement(lower(list[pos], c, t));
        if l.result is Ok {
            lemma_count_add(code, l.code(), defines(op));
            lemma_list_temps(list, pos + 1, l.count, l.table, code + l.code(), op);
        }
    }
}

proof fn lemma_args_temps(
    list: Seq<NodeView>,
    pos: int,
    c: Count,
    t: SymTableView,
    code: Seq<InstructionView>,
    args: Seq<Operand>,
    op: Operand,
)
    requires
        is_temp(op),
        0 <= pos,
        forall|k: int| 0 <= k < list.len() ==> function_free(#[trigger] list[k]),
        forall|k: int| 0 <= k < list.len() ==> named_targets(#[trigger] list[k]),
    ensures
        ({
            let (count_after, table, r) = lower_args(list, pos, c, t, code, args);
            r is Ok ==> {
                &&& c.regular <= count_after.regular
                &&& c.float <= count_after.float
                &&& c.label <= count_after.label
                &&& count(r->Ok_0.0, defines(op)) == count(code, defines(op)) + once(
                    op,
                    c,
                    count_after,
                )
            }
        }),
    decreases list, list.len() - pos,
{
    if pos < list.len() {
        lemma_lower_temps(list[pos], c, t, op);
        let l = lower(list[pos], c, t);
        if l.result is Ok && l.tmp() is Some {
            let v = l.result->Ok_0;
            lemma_count_add(code, v.instructions, defines(op));
            lemma_args_temps(
                list,
                pos + 1,
                l.count,
                l.table,
                code + v.instructions,
                args.push(v.tmp->Some_0),
                op,
            );
        }
    }
}

/// In the instructions of a function whose body defines no function and
/// assigns only to variables and to memory, the temporaries that are
/// written are those from 1 to the last that was handed out, each once.
pub proof fn lemma_function_temps(node: NodeView, c: Count, t: SymTableView, op: Operand)
    requires
        is_temp(op),
        node is Function,
        function_free(*(node->Function_statements)),
        named_targets(node),
    ensures
        ({
            let l = lower(node, c, t);
            l.result is Ok ==> count(l.code(), defines(op)) == once(
                op,
                Count { regular: 0, float: 0, label: c.label },
                l.count,
            )
        }),
{
    let p = defines(op);
    match node {
        NodeView::Function { ident, scope, statements } => {
            let (count0, table, entered) = super::instructions::enter(ident, scope, c, t);
            match entered {
                Err(_) => {},
                Ok((id, offset)) => {
                    lemma_lower_temps(*statements, count0, table, op);
                    let body = lower(*statements, count0, table);
                    lemma_framed_count(id, offset, body, p);
                    lemma_count_one(
                        InstructionView::bare(VariantView::Label(Label::FunctionHead(id))),
                        p,
                    );
                    lemma_count_one(
                        InstructionView::bare(VariantView::Label(Label::FunctionTail(id))),
                        p,
                    );
                    lemma_count_one(InstructionView::bare(VariantView::Ret), p);
                    lemma_count_one(
                        InstructionView::bare(VariantView::Alloc((-offset) as u32)),
                        p,
                    );
                },
            }
        },
        _ => {},
    }
}

/// How many instructions of a function satisfy `p`: those of its body, and
/// of its two labels, its return and the room for its locals.
pub proof fn lemma_framed_count(id: i32, offset: i32, body: Low, p: spec_fn(InstructionView) -> bool)
    ensures
        ({
            let f = super::instructions::framed(id, offset, body);
            f.result is Ok ==> body.result is Ok && body.tmp() is None && f.count == body.count
                && count(f.code(), p) == count(body.code(), p) + count(
                seq![InstructionView::bare(VariantView::Label(Label::FunctionHead(id)))],
                p,
            ) + count(
                seq![InstructionView::bare(VariantView::Label(Label::FunctionTail(id)))],
                p,
            ) + count(seq![InstructionView::bare(VariantView::Ret)], p) + if offset < 0 {
                count(seq![InstructionView::bare(VariantView::Alloc((-offset) as u32))], p)
            } else {
                0
            }
        }),
{
    let f = super::instructions::framed(id, offset, body);
    if f.result is Ok {
        let v = body.result->Ok_0;
        let head = seq![InstructionView::bare(VariantView::Label(Label::FunctionHead(id)))];
        let room = if offset < 0 {
            seq![InstructionView::bare(VariantView::Alloc((-offset) as u32))]
        } else {
            Seq::empty()
        };
        let tail = InstructionView::bare(VariantView::Label(Label::FunctionTail(id)));
        let ret = InstructionView::bare(VariantView::Ret);
        lemma_count_one(tail, p);
        lemma_count_one(ret, p);
        lemma_count_add(head, room, p);
        lemma_count_add(head + room, v.instructions, p);
        lemma_count_push(head + room + v.instructions, tail, p);
        lemma_count_push((head + room + v.instructions).push(tail), ret, p);
    }
}

/// The label that a comparison branches to or a jump jumps to.
pub open spec fn aims(i: InstructionView) -> Option<Label> {
    match i.variant {
        VariantView::Equal(l)
        | VariantView::NotEqual(l)
        | VariantView::Less(l)
        | VariantView::LessEqual(l)
        | VariantView::Greater(l)
        | VariantView::GreaterEqual(l)
        | VariantView::Jump(l) => Some(l),
        _ => None,
    }
}

/// Whether a label belongs to a branch or a loop.
pub open spec fn block(l: Label) -> bool {
    l is BlockBranch || l is BlockJump
}

/// The number of a label.
pub open spec fn number(l: Label) -> int {
    match l {
        Label::FunctionHead(n) => n as int,
        Label::FunctionTail(n) => n as int,
        Label::BlockBranch(n) => n as int,
        Label::BlockJump(n) => n as int,
    }
}

/// Whether an instruction marks a label, or goes to the label of a branch
/// or a loop.
pub open spec fn control(i: InstructionView) -> bool {
    i.variant is Label || (aims(i) matches Some(l) && block(l))
}

/// Whether `p` holds of such instructions only.
pub open spec fn only_control(p: spec_fn(InstructionView) -> bool) -> bool {
    forall|i: InstructionView| #[trigger] p(i) ==> control(i)
}

/// Whether `p` holds of such instructions and of calls only.
pub open spec fn only_control_or_call(p: spec_fn(InstructionView) -> bool) -> bool {
    forall|i: InstructionView| #[trigger] p(i) ==> control(i) || i.variant is Call
}

/// Whether an instruction marks the label `l`.
pub open spec fn marks(l: Label) -> spec_fn(InstructionView) -> bool {
    |i: InstructionView| i.variant == VariantView::Label(l)
}

/// Whether an instruction goes to a label of a branch or a loop that was
/// not handed out after `lo` and up to `hi`.
pub open spec fn strays(lo: u32, hi: u32) -> spec_fn(InstructionView) -> bool {
    |i: InstructionView| aims(i) matches Some(l) && block(l) && !(lo < number(l) <= hi)
}

/// Where `q` holds of no more instructions than `p`, and `p` of none in a
/// stream, `q` holds of none in it.
pub proof fn lemma_count_none(
    s: Seq<InstructionView>,
    p: spec_fn(InstructionView) -> bool,
    q: spec_fn(InstructionView) -> bool,
)
    requires
        forall|i: InstructionView| #[trigger] q(i) ==> p(i),
        count(s, p) == 0,
    ensures
        count(s, q) == 0,
    decreases s.len(),
{
    if s.len() > 0 {
        lemma_count_none(s.drop_last(), p, q);
    }
}

proof fn lemma_leaf_quiet(node: NodeView, c: Count, t: SymTableView, p: spec_fn(InstructionView) -> bool)
    requires
        only_control_or_call(p),
    ensures
        ({
            let l = leaf(node, c, t);
            l.result is Ok ==> count(l.code(), p) == 0 && l.count.label == c.label
        }),
{
    reveal(leaf);
    let l = leaf(node, c, t);
    if l.result is Ok {
        lemma_count_one(InstructionView::bare(VariantView::Ret), p);
        match node {
            NodeView::FloatLit { ctype, .. } => {
                lemma_fresh(ctype, c);
                lemma_count_one(l.code()[0], p);
                assert(l.code() =~= seq![l.code()[0]]);
                assert(!control(l.code()[0]) && !(l.code()[0].variant is Call));
            },
            NodeView::IntLit { ctype, .. } => {
                lemma_fresh(ctype, c);
                lemma_count_one(l.code()[0], p);
                assert(l.code() =~= seq![l.code()[0]]);
                assert(!control(l.code()[0]) && !(l.code()[0].variant is Call));
            },
            NodeView::Return { .. } => {
                lemma_count_one(l.code()[0], p);
                assert(l.code() =~= seq![l.code()[0]]);
                assert(!control(l.code()[0]) && !(l.code()[0].variant is Call));
            },
            _ => {},
        }
    }
}

proof fn lemma_unary_quiet(node: NodeView, l: Low, p: spec_fn(InstructionView) -> bool)
    requires
        only_control_or_call(p),
    ensures
        ({
            let u = unary(node, l);
            u.result is Ok ==> l.result is Ok && count(u.code(), p) == count(l.code(), p)
                && u.count.label == l.count.label
        }),
{
    reveal(unary);
    let u = unary(node, l);
    if l.result is Ok && u.result is Ok {
        let v = l.result->Ok_0;
        match node {
            NodeView::Read { .. } => {
                lemma_count_one(u.code()[0], p);
                assert(u.code() =~= seq![u.code()[0]]);
                assert(!control(u.code()[0]) && !(u.code()[0].variant is Call));
                assert(v.instructions =~= Seq::<InstructionView>::empty());
            },
            NodeView::Return { ctype, function, .. } => {
                let e = v.tmp->Some_0;
                let save = InstructionView::new(
                    VariantView::Save,
                    super::instructions::bank_of(ctype),
                    e,
                    Operand::null(),
                );
                let jump = InstructionView::bare(VariantView::Jump(Label::FunctionTail(function)));
                lemma_count_push(v.instructions, save, p);
                lemma_count_push(v.instructions.push(save), jump, p);
                assert(u.code() == v.instructions.push(save).push(jump));
                assert(!control(save) && !(save.variant is Call));
                assert(!control(jump) && !(jump.variant is Call));
            },
            NodeView::Free { .. }
            | NodeView::Write { .. }
            | NodeView::Malloc { .. }
            | NodeView::UnaryOp { .. }
            | NodeView::Cast { .. }
            | NodeView::Address { .. }
            | NodeView::Dereference { .. }
            | NodeView::Reference { .. } => {
                let ctype = if node is Address {
                    CType::Int
                } else {
                    node.ctype()
                };
                lemma_fresh(ctype, l.count);
                lemma_count_push(v.instructions, u.code().last(), p);
                assert(u.code() == v.instructions.push(u.code().last()));
                assert(!control(u.code().last()) && !(u.code().last().variant is Call));
            },
            _ => {},
        }
    }
}

/// The instructions of a node over two operands: those of the operands,
/// then one of its own, which is a comparison that branches to the block
/// label handed out last where the node is a comparison, and neither marks
/// a label nor goes to one where it is not.
proof fn lemma_binary_quiet(node: NodeView, l: Low, r: Low, p: spec_fn(InstructionView) -> bool)
    requires
        l.result is Ok,
    ensures
        ({
            let u = binary(node, l, r);
            u.result is Ok ==> {
                let x = u.code().last();
                &&& r.result is Ok
                &&& u.count.label == r.count.label
                &&& count(u.code(), p) == count(l.code(), p) + count(r.code(), p) + if p(x) {
                    1nat
                } else {
                    0nat
                }
                &&& !(x.variant is Call)
                &&& if node is ConditionalOp {
                    x.variant.is_compare() && aims(x) == Some(Label::BlockBranch(r.count.label))
                } else {
                    !control(x)
                }
            }
        }),
{
    reveal(binary);
    let u = binary(node, l, r);
    if r.result is Ok && u.result is Ok {
        let a = l.result->Ok_0;
        let b = r.result->Ok_0;
        let code = a.instructions + b.instructions;
        lemma_count_add(a.instructions, b.instructions, p);
        lemma_count_push(code, u.code().last(), p);
        match node {
            NodeView::BinaryOp { ctype, .. } => {
                lemma_fresh(ctype, r.count);
                assert(u.code() == code.push(u.code().last()));
            },
            NodeView::ConditionalOp { ctype, .. } => {
                lemma_fresh(CType::Int, r.count);
                assert(u.code() == code.push(u.code().last()));
            },
            NodeView::Assign { .. } => {
                assert(u.code() == code.push(u.code().last()));
            },
            _ => {},
        }
    }
}

proof fn lemma_calling_quiet(
    node: NodeView,
    c: Count,
    t: SymTableView,
    code: Seq<InstructionView>,
    args: Seq<Operand>,
    p: spec_fn(InstructionView) -> bool,
)
    requires
        only_control(p),
    ensures
        ({
            let u = calling(node, c, t, code, args);
            u.result is Ok ==> count(u.code(), p) == count(code, p) && u.count.label == c.label
        }),
{
    reveal(calling);
    let u = calling(node, c, t, code, args);
    if u.result is Ok {
        match node {
            NodeView::Call { ctype, .. } => {
                lemma_fresh(ctype, c);
                lemma_count_push(code, u.code().last(), p);
                assert(u.code() == code.push(u.code().last()));
                assert(!control(u.code().last()));
            },
            _ => {},
        }
    }
}

/// No branch, loop, comparison, list of statements or function is inside
/// the node: it is an expression or a plain statement.
pub open spec fn calm(node: NodeView) -> bool
    decreases node,
{
    match node {
        NodeView::Empty
        | NodeView::FloatLit { .. }
        | NodeView::IntLit { .. }
        | NodeView::Var { .. } => true,
        NodeView::Free { expr } => calm(*expr),
        NodeView::Malloc { expr, .. } => calm(*expr),
        NodeView::Write { expr, .. } => calm(*expr),
        NodeView::UnaryOp { expr, .. } => calm(*expr),
        NodeView::Cast { expr, .. } => calm(*expr),
        NodeView::Address { expr, .. } => calm(*expr),
        NodeView::Dereference { expr, .. } => calm(*expr),
        NodeView::Reference { expr, .. } => calm(*expr),
        NodeView::Read { var, .. } => calm(*var),
        NodeView::Return { expr, .. } => calm(*expr),
        NodeView::BinaryOp { lhs, rhs, .. } => calm(*lhs) && calm(*rhs),
        NodeView::Assign { lhs, rhs, .. } => calm(*lhs) && calm(*rhs),
        NodeView::Call { arguments, .. } => forall|k: int|
            0 <= k < arguments.len() ==> calm(#[trigger] arguments[k]),
        _ => false,
    }
}

/// The instructions of an expression or a plain statement mark no label
/// and go to no label of a branch or a loop, and no block label is handed
/// out for them.
pub proof fn lemma_calm(node: NodeView, c: Count, t: SymTableView, p: spec_fn(InstructionView) -> bool)
    requires
        calm(node),
        only_control(p),
    ensures
        ({
            let l = lower(node, c, t);
            l.result is Ok ==> count(l.code(), p) == 0 && l.count.label == c.label
        }),
    decreases node, 1int,
{
    match node {
        NodeView::Empty
        | NodeView::FloatLit { .. }
        | NodeView::IntLit { .. }
        | NodeView::Var { .. } => {
            lemma_leaf_quiet(node, c, t, p);
        },
        NodeView::Free { expr } => {
            lemma_calm(*expr, c, t, p);
            lemma_unary_quiet(node, lower(*expr, c, t), p);
        },
        NodeView::Malloc { expr, .. } => {
            lemma_calm(*expr, c, t, p);
            lemma_unary_quiet(node, lower(*expr, c, t), p);
        },
        NodeView::Write { expr, .. } => {
            lemma_calm(*expr, c, t, p);
            lemma_unary_quiet(node, lower(*expr, c, t), p);
        },
        NodeView::UnaryOp { expr, .. } => {
            lemma_calm(*expr, c, t, p);
            lemma_unary_quiet(node, lower(*expr, c, t), p);
        },
        NodeView::Cast { expr, .. } => {
            lemma_calm(*expr, c, t, p);
            lemma_unary_quiet(node, lower(*expr, c, t), p);
        },
        NodeView::Address { expr, .. } => {
            lemma_calm(*expr, c, t, p);
            lemma_unary_quiet(node, lower(*expr, c, t), p);
        },
        NodeView::Dereference { expr, .. } => {
            lemma_calm(*expr, c, t, p);
            lemma_unary_quiet(node, lower(*expr, c, t), p);
        },
        NodeView::Reference { expr, .. } => {
            lemma_calm(*expr, c, t, p);
            lemma_unary_quiet(node, lower(*expr, c, t), p);
        },
        NodeView::Read { var, .. } => {
            lemma_calm(*var, c, t, p);
            lemma_unary_quiet(node, lower(*var, c, t), p);
        },
        NodeView::Return { ctype, expr, .. } => {
            if ctype is Void {
                lemma_leaf_quiet(node, c, t, p);
            } else {
                lemma_calm(*expr, c, t, p);
                lemma_unary_quiet(node, lower(*expr, c, t), p);
            }
        },
        NodeView::BinaryOp { lhs, rhs, .. } => {
            lemma_calm(*lhs, c, t, p);
            let l = lower(*lhs, c, t);
            if l.result is Ok {
                lemma_calm(*rhs, l.count, l.table, p);
                lemma_binary_quiet(node, l, lower(*rhs, l.count, l.table), p);
            }
        },
        NodeView::Assign { .. } => {
            lemma_calm_assign(node, c, t, p);
        },
        NodeView::Call { arguments, .. } => {
            lemma_count_one(InstructionView::bare(VariantView::Ret), p);
            lemma_calm_args(arguments, 0, c, t, Seq::empty(), Seq::empty(), p);
            let (count, table, r) = lower_args(arguments, 0, c, t, Seq::empty(), Seq::empty());
            if r is Ok {
                let (code, args) = r->Ok_0;
                lemma_calling_quiet(node, count, table, code, args, p);
            }
        },
        _ => {},
    }
}

proof fn lemma_calm_assign(
    node: NodeView,
    c: Count,
    t: SymTableView,
    p: spec_fn(InstructionView) -> bool,
)
    requires
        calm(node),
        node is Assign,
        only_control(p),
    ensures
        ({
            let l = lower(node, c, t);
            l.result is Ok ==> count(l.code(), p) == 0 && l.count.label == c.label
        }),
    decreases node, 0int,
{
    match node {
        NodeView::Assign { lhs, rhs, .. } => {
            assert(calm(*lhs) && calm(*rhs));
            match *lhs {
                NodeView::Address { expr, .. } => {
                    assert(calm(*expr));
                    lemma_calm(*expr, c, t, p);
                    let l = lower(*expr, c, t);
                    if l.result is Ok {
                        lemma_calm(*rhs, l.count, l.table, p);
                        lemma_binary_quiet(node, l, lower(*rhs, l.count, l.table), p);
                    }
                },
                _ => {
                    lemma_calm(*lhs, c, t, p);
                    let l = lower(*lhs, c, t);
                    if l.result is Ok {
                        lemma_calm(*rhs, l.count, l.table, p);
                        lemma_binary_quiet(node, l, lower(*rhs, l.count, l.table), p);
                    }
                },
            }
        },
        _ => {},
    }
}

proof fn lemma_calm_args(
    list: Seq<NodeView>,
    pos: int,
    c: Count,
    t: SymTableView,
    code: Seq<InstructionView>,
    args: Seq<Operand>,
    p: spec_fn(InstructionView) -> bool,
)
    requires
        0 <= pos,
        only_control(p),
        forall|k: int| 0 <= k < list.len() ==> calm(#[trigger] list[k]),
    ensures
        ({
            let (count_after, table, r) = lower_args(list, pos, c, t, code, args);
            r is Ok ==> count_after.label == c.label && count(r->Ok_0.0, p) == count(code, p)
        }),
    decreases list, list.len() - pos,
{
    if pos < list.len() {
        lemma_calm(list[pos], c, t, p);
        let l = lower(list[pos], c, t);
        if l.result is Ok && l.tmp() is Some {
            let v = l.result->Ok_0;
            lemma_count_add(code, v.instructions, p);
            lemma_calm_args(
                list,
                pos + 1,
                l.count,
                l.table,
                code + v.instructions,
                args.push(v.tmp->Some_0),
                p,
            );
        }
    }
}

/// An expression, or a comparison of two expressions.
pub open spec fn condition(node: NodeView) -> bool {
    calm(node) || (node matches NodeView::ConditionalOp { lhs, rhs, .. } && calm(*lhs) && calm(
        *rhs,
    ))
}

/// Comparisons stand only as the conditions of branches and loops, and
/// branches and loops only where statements stand.
pub open spec fn structured(node: NodeView) -> bool
    decreases node,
{
    match node {
        NodeView::IfElse { cond, lhs, rhs } => condition(*cond) && structured(*lhs) && structured(
            *rhs,
        ),
        NodeView::While { cond, statements } => condition(*cond) && structured(*statements),
        NodeView::StatementList { statements } => forall|k: int|
            0 <= k < statements.len() ==> structured(#[trigger] statements[k]),
        NodeView::Function { statements, .. } => structured(*statements),
        _ => calm(node),
    }
}

/// How often the label of number `n` is marked between two states of the
/// counters: once if it was handed out between them, else never.
pub open spec fn marked(n: u32, before: Count, after: Count) -> nat {
    if before.label < n <= after.label {
        1
    } else {
        0
    }
}

/// What holds of the block labels after a lowering that started with the
/// counters `c`: each label that was handed out is marked once, no other
/// is marked, and every branch and jump goes to one that was handed out.
pub open spec fn balanced(l: Low, c: Count, n: u32) -> bool {
    l.result is Ok ==> {
        &&& c.label <= l.count.label
        &&& count(l.code(), marks(Label::BlockBranch(n))) == marked(n, c, l.count)
        &&& count(l.code(), marks(Label::BlockJump(n))) == marked(n, c, l.count)
        &&& count(l.code(), strays(c.label, l.count.label)) == 0
    }
}

proof fn lemma_marks_control(l: Label, lo: u32, hi: u32)
    ensures
        only_control(marks(l)),
        only_control(strays(lo, hi)),
{
}

/// The instructions of a condition mark no label, and branch only to the
/// block label that was handed out last.
proof fn lemma_condition(node: NodeView, c: Count, t: SymTableView, n: u32, lo: u32, hi: u32)
    requires
        condition(node),
        lo < c.label <= hi,
    ensures
        ({
            let l = super::instructions::as_statement(lower(node, c, t));
            l.result is Ok ==> {
                &&& l.count.label == c.label
                &&& count(l.code(), marks(Label::BlockBranch(n))) == 0
                &&& count(l.code(), marks(Label::BlockJump(n))) == 0
                &&& count(l.code(), strays(lo, hi)) == 0
            }
        }),
{
    lemma_marks_control(Label::BlockBranch(n), lo, hi);
    lemma_marks_control(Label::BlockJump(n), lo, hi);
    match node {
        NodeView::ConditionalOp { lhs, rhs, .. } => {
            let a = lower(*lhs, c, t);
            lemma_calm(*lhs, c, t, marks(Label::BlockBranch(n)));
            lemma_calm(*lhs, c, t, marks(Label::BlockJump(n)));
            lemma_calm(*lhs, c, t, strays(lo, hi));
            if a.result is Ok {
                let b = lower(*rhs, a.count, a.table);
                lemma_calm(*rhs, a.count, a.table, marks(Label::BlockBranch(n)));
                lemma_calm(*rhs, a.count, a.table, marks(Label::BlockJump(n)));
                lemma_calm(*rhs, a.count, a.table, strays(lo, hi));
                lemma_binary_quiet(node, a, b, marks(Label::BlockBranch(n)));
                lemma_binary_quiet(node, a, b, marks(Label::BlockJump(n)));
                lemma_binary_quiet(node, a, b, strays(lo, hi));
            }
        },
        _ => {
            lemma_calm(node, c, t, marks(Label::BlockBranch(n)));
            lemma_calm(node, c, t, marks(Label::BlockJump(n)));
            lemma_calm(node, c, t, strays(lo, hi));
        },
    }
}

/// What a jump and the two labels of a branch or a loop under block label
/// `m` add to the marks of label `n` and to the strays.
proof fn lemma_own_marks(m: u32, n: u32, lo: u32, hi: u32)
    requires
        lo < m <= hi,
    ensures
        ({
            let j = seq![InstructionView::bare(VariantView::Jump(Label::BlockJump(m)))];
            let lb = seq![InstructionView::bare(VariantView::Label(Label::BlockBranch(m)))];
            let lj = seq![InstructionView::bare(VariantView::Label(Label::BlockJump(m)))];
            &&& count(j, marks(Label::BlockBranch(n))) == 0
            &&& count(j, marks(Label::BlockJump(n))) == 0
            &&& count(j, strays(lo, hi)) == 0
            &&& count(lb, marks(Label::BlockBranch(n))) == if m == n {
                1nat
            } else {
                0nat
            }
            &&& count(lb, marks(Label::BlockJump(n))) == 0
            &&& count(lb, strays(lo, hi)) == 0
            &&& count(lj, marks(Label::BlockBranch(n))) == 0
            &&& count(lj, marks(Label::BlockJump(n))) == if m == n {
                1nat
            } else {
                0nat
            }
            &&& count(lj, strays(lo, hi)) == 0
        }),
{
    let j = InstructionView::bare(VariantView::Jump(Label::BlockJump(m)));
    let lb = InstructionView::bare(VariantView::Label(Label::BlockBranch(m)));
    let lj = InstructionView::bare(VariantView::Label(Label::BlockJump(m)));
    lemma_count_one(j, marks(Label::BlockBranch(n)));
    lemma_count_one(j, marks(Label::BlockJump(n)));
    lemma_count_one(j, strays(lo, hi));
    lemma_count_one(lb, marks(Label::BlockBranch(n)));
    lemma_count_one(lb, marks(Label::BlockJump(n)));
    lemma_count_one(lb, strays(lo, hi));
    lemma_count_one(lj, marks(Label::BlockBranch(n)));
    lemma_count_one(lj, marks(Label::BlockJump(n)));
    lemma_count_one(lj, strays(lo, hi));
}

/// A part that is balanced on its own has no strays in a wider range.
proof fn lemma_widen(l: Low, c: Count, n: u32, lo: u32, hi: u32)
    requires
        balanced(l, c, n),
        l.result is Ok,
        lo <= c.label,
        l.count.label <= hi,
    ensures
        count(l.code(), strays(lo, hi)) == 0,
{
    lemma_count_none(l.code(), strays(c.label, l.count.label), strays(lo, hi));
}

/// In the instructions of a structured node, each block label that was
/// handed out is marked once, no other is marked, and every branch and
/// jump goes to one that was handed out.
pub proof fn lemma_structured(node: NodeView, c: Count, t: SymTableView, n: u32)
    requires
        structured(node),
    ensures
        balanced(lower(node, c, t), c, n),
    decreases node, 1int,
{
    match node {
        NodeView::IfElse { .. } => {
            lemma_structured_if(node, c, t, n);
        },
        NodeView::While { .. } => {
            lemma_structured_while(node, c, t, n);
        },
        NodeView::StatementList { statements } => {
            lemma_count_one(
                InstructionView::bare(VariantView::Ret),
                marks(Label::BlockBranch(n)),
            );
            lemma_count_one(InstructionView::bare(VariantView::Ret), marks(Label::BlockJump(n)));
            lemma_list_balanced(statements, 0, c, t, Seq::empty(), n, c.label);
            let l = lower_list(statements, 0, c, t, Seq::empty());
            lemma_count_one(
                InstructionView::bare(VariantView::Ret),
                strays(c.label, l.count.label),
            );
        },
        NodeView::Function { .. } => {
            lemma_structured_function(node, c, t, n);
        },
        _ => {
            lemma_marks_control(Label::BlockBranch(n), c.label, c.label);
            lemma_marks_control(Label::BlockJump(n), c.label, c.label);
            lemma_calm(node, c, t, marks(Label::BlockBranch(n)));
            lemma_calm(node, c, t, marks(Label::BlockJump(n)));
            lemma_calm(node, c, t, strays(c.label, c.label));
        },
    }
}

proof fn lemma_structured_if(node: NodeView, c: Count, t: SymTableView, n: u32)
    requires
        structured(node),
        node is IfElse,
    ensures
        balanced(lower(node, c, t), c, n),
    decreases node, 0int,
{
    match node {
        NodeView::IfElse { cond, lhs, rhs } => {
            match super::instructions::next_label(c) {
                None => {},
                Some(bumped) => {
                    let m = bumped.label;
                    let a = super::instructions::as_statement(lower(*cond, bumped, t));
                    if a.result is Ok {
                        lemma_structured(*lhs, a.count, a.table, n);
                        let b = super::instructions::as_statement(lower(*lhs, a.count, a.table));
                        if b.result is Ok {
                            lemma_structured(*rhs, b.count, b.table, n);
                            let d = super::instructions::as_statement(
                                lower(*rhs, b.count, b.table),
                            );
                            if d.result is Ok {
                                lemma_condition(*cond, bumped, t, n, c.label, m);
                                assert(a.count.label == m);
                                let hi = d.count.label;
                                lemma_condition(*cond, bumped, t, n, c.label, hi);
                                lemma_widen(b, a.count, n, c.label, hi);
                                lemma_widen(d, b.count, n, c.label, hi);
                                lemma_own_marks(m, n, c.label, hi);
                                lemma_branching_count(m, a, b, d, marks(Label::BlockBranch(n)));
                                lemma_branching_count(m, a, b, d, marks(Label::BlockJump(n)));
                                lemma_branching_count(m, a, b, d, strays(c.label, hi));
                            }
                        }
                    }
                },
            }
        },
        _ => {},
    }
}

proof fn lemma_structured_while(node: NodeView, c: Count, t: SymTableView, n: u32)
    requires
        structured(node),
        node is While,
    ensures
        balanced(lower(node, c, t), c, n),
    decreases node, 0int,
{
    match node {
        NodeView::While { cond, statements } => {
            match super::instructions::next_label(c) {
                None => {},
                Some(bumped) => {
                    let m = bumped.label;
                    let a = super::instructions::as_statement(lower(*cond, bumped, t));
                    if a.result is Ok {
                        lemma_condition(*cond, bumped, t, n, c.label, m);
                        lemma_structured(*statements, a.count, a.table, n);
                        let b = super::instructions::as_statement(
                            lower(*statements, a.count, a.table),
                        );
                        if b.result is Ok {
                            let hi = b.count.label;
                            lemma_condition(*cond, bumped, t, n, c.label, hi);
                            lemma_widen(b, a.count, n, c.label, hi);
                            lemma_own_marks(m, n, c.label, hi);
                            lemma_looping_count(m, a, b, marks(Label::BlockBranch(n)));
                            lemma_looping_count(m, a, b, marks(Label::BlockJump(n)));
                            lemma_looping_count(m, a, b, strays(c.label, hi));
                        }
                    }
                },
            }
        },
        _ => {},
    }
}

proof fn lemma_structured_function(node: NodeView, c: Count, t: SymTableView, n: u32)
    requires
        structured(node),
        node is Function,
    ensures
        balanced(lower(node, c, t), c, n),
    decreases node, 0int,
{
    match node {
        NodeView::Function { ident, scope, statements } => {
            let (count0, table, entered) = super::instructions::enter(ident, scope, c, t);
            match entered {
                Err(_) => {},
                Ok((id, offset)) => {
                    lemma_structured(*statements, count0, table, n);
                    let body = lower(*statements, count0, table);
                    let f = super::instructions::framed(id, offset, body);
                    if f.result is Ok {
                        let hi = f.count.label;
                        lemma_framed_count(id, offset, body, marks(Label::BlockBranch(n)));
                        lemma_framed_count(id, offset, body, marks(Label::BlockJump(n)));
                        lemma_framed_count(id, offset, body, strays(c.label, hi));
                        lemma_frame_marks(id, offset, Label::BlockBranch(n), c.label, hi);
                        lemma_frame_marks(id, offset, Label::BlockJump(n), c.label, hi);
                    }
                },
            }
        },
        _ => {},
    }
}

/// What the labels, the return and the room of a function add to the marks
/// of a label and to the strays.
proof fn lemma_frame_marks(id: i32, offset: i32, l: Label, lo: u32, hi: u32)
    ensures
        ({
            let head = seq![InstructionView::bare(VariantView::Label(Label::FunctionHead(id)))];
            let tail = seq![InstructionView::bare(VariantView::Label(Label::FunctionTail(id)))];
            let ret = seq![InstructionView::bare(VariantView::Ret)];
            let room = seq![InstructionView::bare(VariantView::Alloc((-offset) as u32))];
            &&& count(head, marks(l)) == if l == Label::FunctionHead(id) {
                1nat
            } else {
                0nat
            }
            &&& count(tail, marks(l)) == if l == Label::FunctionTail(id) {
                1nat
            } else {
                0nat
            }
            &&& count(ret, marks(l)) == 0
            &&& count(room, marks(l)) == 0
            &&& count(head, strays(lo, hi)) == 0
            &&& count(tail, strays(lo, hi)) == 0
            &&& count(ret, strays(lo, hi)) == 0
            &&& count(room, strays(lo, hi)) == 0
        }),
{
    let head = InstructionView::bare(VariantView::Label(Label::FunctionHead(id)));
    let tail = InstructionView::bare(VariantView::Label(Label::FunctionTail(id)));
    let ret = InstructionView::bare(VariantView::Ret);
    let room = InstructionView::bare(VariantView::Alloc((-offset) as u32));
    lemma_count_one(head, marks(l));
    lemma_count_one(tail, marks(l));
    lemma_count_one(ret, marks(l));
    lemma_count_one(room, marks(l));
    lemma_count_one(head, strays(lo, hi));
    lemma_count_one(tail, strays(lo, hi));
    lemma_count_one(ret, strays(lo, hi));
    lemma_count_one(room, strays(lo, hi));
}

proof fn lemma_list_balanced(
    list: Seq<NodeView>,
    pos: int,
    c: Count,
    t: SymTableView,
    code: Seq<InstructionView>,
    n: u32,
    lo: u32,
)
    requires
        0 <= pos,
        lo <= c.label,
        forall|k: int| 0 <= k < list.len() ==> structured(#[trigger] list[k]),
    ensures
        ({
            let l = lower_list(list, pos, c, t, code);
            l.result is Ok ==> {
                &&& c.label <= l.count.label
                &&& count(l.code(), marks(Label::BlockBranch(n))) == count(
                    code,
                    marks(Label::BlockBranch(n)),
                ) + marked(n, c, l.count)
                &&& count(l.code(), marks(Label::BlockJump(n))) == count(
                    code,
                    marks(Label::BlockJump(n)),
                ) + marked(n, c, l.count)
                &&& forall|hi: u32|
                    l.count.label <= hi && count(code, strays(lo, hi)) == 0 ==> count(
                        l.code(),
                        #[trigger] strays(lo, hi),
                    ) == 0
            }
        }),
    decreases list, list.len() - pos,
{
    if pos < list.len() {
        lemma_structured(list[pos], c, t, n);
        let l = super::instructions::as_statement(lower(list[pos], c, t));
        if l.result is Ok {
            lemma_count_add(code, l.code(), marks(Label::BlockBranch(n)));
            lemma_count_add(code, l.code(), marks(Label::BlockJump(n)));
            lemma_list_balanced(list, pos + 1, l.count, l.table, code + l.code(), n, lo);
            let done = lower_list(list, pos + 1, l.count, l.table, code + l.code());
            if done.result is Ok {
                assert forall|hi: u32|
                    done.count.label <= hi && count(code, strays(lo, hi)) == 0 implies count(
                    done.code(),
                    #[trigger] strays(lo, hi),
                ) == 0 by {
                    lemma_widen(l, c, n, lo, hi);
                    lemma_count_add(code, l.code(), strays(lo, hi));
                }
            }
        }
    }
}

/// Where `p` holds of no instruction of a stream, it does not hold of the
/// instruction at any place.
pub proof fn lemma_count_zero(s: Seq<InstructionView>, p: spec_fn(InstructionView) -> bool, k: int)
    requires
        count(s, p) == 0,
        0 <= k < s.len(),
    ensures
        !p(s[k]),
    decreases s.len(),
{
    if k < s.len() - 1 {
        lemma_count_zero(s.drop_last(), p, k);
    }
}

/// In the instructions of a structured node, every branch and every jump
/// to the label of a branch or a loop goes to a label that is marked
/// exactly once.
pub proof fn lemma_block_labels(node: NodeView, c: Count, t: SymTableView, k: int)
    requires
        structured(node),
        lower(node, c, t).result is Ok,
        0 <= k < lower(node, c, t).code().len(),
        aims(lower(node, c, t).code()[k]) matches Some(l) && block(l),
    ensures
        count(lower(node, c, t).code(), marks(aims(lower(node, c, t).code()[k])->Some_0)) == 1,
{
    let l = lower(node, c, t);
    let target = aims(l.code()[k])->Some_0;
    let n = number(target) as u32;
    lemma_structured(node, c, t, n);
    lemma_count_zero(l.code(), strays(c.label, l.count.label), k);
    match target {
        Label::BlockBranch(m) => {
            assert(m == n);
        },
        Label::BlockJump(m) => {
            assert(m == n);
        },
        _ => {},
    }
}

/// Whether a label belongs to a function.
pub open spec fn of_function(l: Label) -> bool {
    l is FunctionHead || l is FunctionTail
}

/// The instructions of a node that defines no function mark no label of a
/// function.
pub proof fn lemma_no_function_labels(node: NodeView, c: Count, t: SymTableView, l: Label)
    requires
        function_free(node),
        of_function(l),
    ensures
        lower(node, c, t).result is Ok ==> count(lower(node, c, t).code(), marks(l)) == 0,
    decreases node, 1int,
{
    lemma_marks_control(l, 0, 0);
    match node {
        NodeView::Empty
        | NodeView::FloatLit { .. }
        | NodeView::IntLit { .. }
        | NodeView::Var { .. } => {
            lemma_leaf_quiet(node, c, t, marks(l));
        },
        NodeView::Free { expr } => {
            lemma_no_function_labels(*expr, c, t, l);
            lemma_unary_quiet(node, lower(*expr, c, t), marks(l));
        },
        NodeView::Malloc { expr, .. } => {
            lemma_no_function_labels(*expr, c, t, l);
            lemma_unary_quiet(node, lower(*expr, c, t), marks(l));
        },
        NodeView::Write { expr, .. } => {
            lemma_no_function_labels(*expr, c, t, l);
            lemma_unary_quiet(node, lower(*expr, c, t), marks(l));
        },
        NodeView::UnaryOp { expr, .. } => {
            lemma_no_function_labels(*expr, c, t, l);
            lemma_unary_quiet(node, lower(*expr, c, t), marks(l));
        },
        NodeView::Cast { expr, .. } => {
            lemma_no_function_labels(*expr, c, t, l);
            lemma_unary_quiet(node, lower(*expr, c, t), marks(l));
        },
        NodeView::Address { expr, .. } => {
            lemma_no_function_labels(*expr, c, t, l);
            lemma_unary_quiet(node, lower(*expr, c, t), marks(l));
        },
        NodeView::Dereference { expr, .. } => {
            lemma_no_function_labels(*expr, c, t, l);
            lemma_unary_quiet(node, lower(*expr, c, t), marks(l));
        },
        NodeView::Reference { expr, .. } => {
            lemma_no_function_labels(*expr, c, t, l);
            lemma_unary_quiet(node, lower(*expr, c, t), marks(l));
        },
        NodeView::Read { var, .. } => {
            lemma_no_function_labels(*var, c, t, l);
            lemma_unary_quiet(node, lower(*var, c, t), marks(l));
        },
        NodeView::Return { ctype, expr, .. } => {
            if ctype is Void {
                lemma_leaf_quiet(node, c, t, marks(l));
            } else {
                lemma_no_function_labels(*expr, c, t, l);
                lemma_unary_quiet(node, lower(*expr, c, t), marks(l));
            }
        },
        NodeView::BinaryOp { lhs, rhs, .. } => {
            lemma_no_function_labels(*lhs, c, t, l);
            let a = lower(*lhs, c, t);
            if a.result is Ok {
                lemma_no_function_labels(*rhs, a.count, a.table, l);
                lemma_binary_quiet(node, a, lower(*rhs, a.count, a.table), marks(l));
            }
        },
        NodeView::ConditionalOp { lhs, rhs, .. } => {
            lemma_no_function_labels(*lhs, c, t, l);
            let a = lower(*lhs, c, t);
            if a.result is Ok {
                lemma_no_function_labels(*rhs, a.count, a.table, l);
                lemma_binary_quiet(node, a, lower(*rhs, a.count, a.table), marks(l));
            }
        },
        NodeView::Assign { .. } => {
            lemma_no_function_labels_assign(node, c, t, l);
        },
        NodeView::IfElse { .. } | NodeView::While { .. } => {
            lemma_no_function_labels_block(node, c, t, l);
        },
        NodeView::StatementList { statements } => {
            lemma_count_one(InstructionView::bare(VariantView::Ret), marks(l));
            lemma_list_no_function_labels(statements, 0, c, t, Seq::empty(), l);
        },
        NodeView::Function { .. } => {},
        NodeView::Call { arguments, .. } => {
            lemma_count_one(InstructionView::bare(VariantView::Ret), marks(l));
            lemma_args_no_function_labels(arguments, 0, c, t, Seq::empty(), Seq::empty(), l);
            let (count, table, r) = lower_args(arguments, 0, c, t, Seq::empty(), Seq::empty());
            if r is Ok {
                let (code, args) = r->Ok_0;
                lemma_calling_quiet(node, count, table, code, args, marks(l));
            }
        },
    }
}

proof fn lemma_no_function_labels_assign(node: NodeView, c: Count, t: SymTableView, l: Label)
    requires
        function_free(node),
        node is Assign,
        of_function(l),
    ensures
        lower(node, c, t).result is Ok ==> count(lower(node, c, t).code(), marks(l)) == 0,
    decreases node, 0int,
{
    lemma_marks_control(l, 0, 0);
    match node {
        NodeView::Assign { lhs, rhs, .. } => {
            assert(function_free(*lhs) && function_free(*rhs));
            match *lhs {
                NodeView::Address { expr, .. } => {
                    assert(function_free(*expr));
                    lemma_no_function_labels(*expr, c, t, l);
                    let a = lower(*expr, c, t);
                    if a.result is Ok {
                        lemma_no_function_labels(*rhs, a.count, a.table, l);
                        lemma_binary_quiet(node, a, lower(*rhs, a.count, a.table), marks(l));
                    }
                },
                _ => {
                    lemma_no_function_labels(*lhs, c, t, l);
                    let a = lower(*lhs, c, t);
                    if a.result is Ok {
                        lemma_no_function_labels(*rhs, a.count, a.table, l);
                        lemma_binary_quiet(node, a, lower(*rhs, a.count, a.table), marks(l));
                    }
                },
            }
        },
        _ => {},
    }
}

proof fn lemma_no_function_labels_block(node: NodeView, c: Count, t: SymTableView, l: Label)
    requires
        function_free(node),
        node is IfElse || node is While,
        of_function(l),
    ensures
        lower(node, c, t).result is Ok ==> count(lower(node, c, t).code(), marks(l)) == 0,
    decreases node, 0int,
{
    match super::instructions::next_label(c) {
        None => {},
        Some(bumped) => {
            let m = bumped.label;
            lemma_count_one(InstructionView::bare(VariantView::Jump(Label::BlockJump(m))), marks(l));
            lemma_count_one(
                InstructionView::bare(VariantView::Label(Label::BlockBranch(m))),
                marks(l),
            );
            lemma_count_one(
                InstructionView::bare(VariantView::Label(Label::BlockJump(m))),
                marks(l),
            );
            match node {
                NodeView::IfElse { cond, lhs, rhs } => {
                    lemma_no_function_labels(*cond, bumped, t, l);
                    let a = super::instructions::as_statement(lower(*cond, bumped, t));
                    if a.result is Ok {
                        lemma_no_function_labels(*lhs, a.count, a.table, l);
                        let b = super::instructions::as_statement(lower(*lhs, a.count, a.table));
                        if b.result is Ok {
                            lemma_no_function_labels(*rhs, b.count, b.table, l);
                            let d = super::instructions::as_statement(
                                lower(*rhs, b.count, b.table),
                            );
                            if d.result is Ok {
                                lemma_branching_count(m, a, b, d, marks(l));
                            }
                        }
                    }
                },
                NodeView::While { cond, statements } => {
                    lemma_no_function_labels(*cond, bumped, t, l);
                    let a = super::instructions::as_statement(lower(*cond, bumped, t));
                    if a.result is Ok {
                        lemma_no_function_labels(*statements, a.count, a.table, l);
                        let b = super::instructions::as_statement(
                            lower(*statements, a.count, a.table),
                        );
                        if b.result is Ok {
                            lemma_looping_count(m, a, b, marks(l));
                        }
                    }
                },
                _ => {},
            }
        },
    }
}

proof fn lemma_list_no_function_labels(
    list: Seq<NodeView>,
    pos: int,
    c: Count,
    t: SymTableView,
    code: Seq<InstructionView>,
    l: Label,
)
    requires
        0 <= pos,
        of_function(l),
        forall|k: int| 0 <= k < list.len() ==> function_free(#[trigger] list[k]),
    ensures
        ({
            let done = lower_list(list, pos, c, t, code);
            done.result is Ok ==> count(done.code(), marks(l)) == count(code, marks(l))
        }),
    decreases list, list.len() - pos,
{
    if pos < list.len() {
        lemma_no_function_labels(list[pos], c, t, l);
        let a = super::instructions::as_statement(lower(list[pos], c, t));
        if a.result is Ok {
            lemma_count_add(code, a.code(), marks(l));
            lemma_list_no_function_labels(list, pos + 1, a.count, a.table, code + a.code(), l);
        }
    }
}

proof fn lemma_args_no_function_labels(
    list: Seq<NodeView>,
    pos: int,
    c: Count,
    t: SymTableView,
    code: Seq<InstructionView>,
    args: Seq<Operand>,
    l: Label,
)
    requires
        0 <= pos,
        of_function(l),
        forall|k: int| 0 <= k < list.len() ==> function_free(#[trigger] list[k]),
    ensures
        ({
            let (count_after, table, r) = lower_args(list, pos, c, t, code, args);
            r is Ok ==> count(r->Ok_0.0, marks(l)) == count(code, marks(l))
        }),
    decreases list, list.len() - pos,
{
    if pos < list.len() {
        lemma_no_function_labels(list[pos], c, t, l);
        let a = lower(list[pos], c, t);
        if a.result is Ok && a.tmp() is Some {
            let v = a.result->Ok_0;
            lemma_count_add(code, v.instructions, marks(l));
            lemma_args_no_function_labels(
                list,
                pos + 1,
                a.count,
                a.table,
                code + v.instructions,
                args.push(v.tmp->Some_0),
                l,
            );
        }
    }
}

/// The identity of the function that a node defines, as the table has it.
pub open spec fn identity(node: NodeView, t: SymTableView) -> Option<i32> {
    match node {
        NodeView::Function { ident, scope, .. } => match t.get_symbol_in_scope(ident, scope) {
            Ok(symbol) => Some(symbol.address()),
            Err(_) => None,
        },
        _ => None,
    }
}

/// The instructions of a function whose body defines no function mark the
/// head and the tail of that function once each, and no other label of a
/// function.
pub proof fn lemma_function_labels(node: NodeView, c: Count, t: SymTableView, l: Label)
    requires
        node is Function,
        function_free(*(node->Function_statements)),
        of_function(l),
    ensures
        lower(node, c, t).result is Ok ==> identity(node, t) is Some && count(
            lower(node, c, t).code(),
            marks(l),
        ) == if number(l) == identity(node, t)->Some_0 {
            1nat
        } else {
            0nat
        },
{
    match node {
        NodeView::Function { ident, scope, statements } => {
            let (count0, table, entered) = super::instructions::enter(ident, scope, c, t);
            match entered {
                Err(_) => {},
                Ok((id, offset)) => {
                    lemma_no_function_labels(*statements, count0, table, l);
                    let body = lower(*statements, count0, table);
                    lemma_framed_count(id, offset, body, marks(l));
                    lemma_frame_marks(id, offset, l, 0, 0);
                },
            }
        },
        _ => {},
    }
}

/// Lowering moves the current scope of the table and changes nothing else
/// of it.
pub proof fn lemma_lower_scopes(node: NodeView, c: Count, t: SymTableView)
    ensures
        lower(node, c, t).table.scopes == t.scopes,
    decreases node, 1int,
{
    reveal(leaf);
    reveal(unary);
    reveal(binary);
    reveal(calling);
    match node {
        NodeView::Empty
        | NodeView::FloatLit { .. }
        | NodeView::IntLit { .. }
        | NodeView::Var { .. } => {},
        NodeView::Free { expr } => {
            lemma_lower_scopes(*expr, c, t);
        },
        NodeView::Malloc { expr, .. } => {
            lemma_lower_scopes(*expr, c, t);
        },
        NodeView::Write { expr, .. } => {
            lemma_lower_scopes(*expr, c, t);
        },
        NodeView::UnaryOp { expr, .. } => {
            lemma_lower_scopes(*expr, c, t);
        },
        NodeView::Cast { expr, .. } => {
            lemma_lower_scopes(*expr, c, t);
        },
        NodeView::Address { expr, .. } => {
            lemma_lower_scopes(*expr, c, t);
        },
        NodeView::Dereference { expr, .. } => {
            lemma_lower_scopes(*expr, c, t);
        },
        NodeView::Reference { expr, .. } => {
            lemma_lower_scopes(*expr, c, t);
        },
        NodeView::Read { var, .. } => {
            lemma_lower_scopes(*var, c, t);
        },
        NodeView::Return { ctype, expr, .. } => {
            lemma_lower_scopes(*expr, c, t);
        },
        NodeView::BinaryOp { lhs, rhs, .. } => {
            lemma_lower_scopes(*lhs, c, t);
            let a = lower(*lhs, c, t);
            lemma_lower_scopes(*rhs, a.count, a.table);
        },
        NodeView::ConditionalOp { lhs, rhs, .. } => {
            lemma_lower_scopes(*lhs, c, t);
            let a = lower(*lhs, c, t);
            lemma_lower_scopes(*rhs, a.count, a.table);
        },
        NodeView::Assign { lhs, rhs, .. } => {
            match *lhs {
                NodeView::Address { expr, .. } => {
                    lemma_lower_scopes(*expr, c, t);
                    let a = lower(*expr, c, t);
                    lemma_lower_scopes(*rhs, a.count, a.table);
                },
                _ => {
                    lemma_lower_scopes(*lhs, c, t);
                    let a = lower(*lhs, c, t);
                    lemma_lower_scopes(*rhs, a.count, a.table);
                },
            }
        },
        NodeView::IfElse { cond, lhs, rhs } => {
            match super::instructions::next_label(c) {
                None => {},
                Some(bumped) => {
                    lemma_lower_scopes(*cond, bumped, t);
                    let a = super::instructions::as_statement(lower(*cond, bumped, t));
                    lemma_lower_scopes(*lhs, a.count, a.table);
                    let b = super::instructions::as_statement(lower(*lhs, a.count, a.table));
                    lemma_lower_scopes(*rhs, b.count, b.table);
                },
            }
        },
        NodeView::While { cond, statements } => {
            match super::instructions::next_label(c) {
                None => {},
                Some(bumped) => {
                    lemma_lower_scopes(*cond, bumped, t);
                    let a = super::instructions::as_statement(lower(*cond, bumped, t));
                    lemma_lower_scopes(*statements, a.count, a.table);
                },
            }
        },
        NodeView::StatementList { statements } => {
            lemma_list_scopes(statements, 0, c, t, Seq::empty());
        },
        NodeView::Function { ident, scope, statements } => {
            let (count0, table, entered) = super::instructions::enter(ident, scope, c, t);
            if entered is Ok {
                lemma_lower_scopes(*statements, count0, table);
            }
        },
        NodeView::Call { arguments, .. } => {
            lemma_args_scopes(arguments, 0, c, t, Seq::empty(), Seq::empty());
        },
    }
}

proof fn lemma_list_scopes(
    list: Seq<NodeView>,
    pos: int,
    c: Count,
    t: SymTableView,
    code: Seq<InstructionView>,
)
    requires
        0 <= pos,
    ensures
        lower_list(list, pos, c, t, code).table.scopes == t.scopes,
    decreases list, list.len() - pos,
{
    if pos < list.len() {
        lemma_lower_scopes(list[pos], c, t);
        let a = super::instructions::as_statement(lower(list[pos], c, t));
        if a.result is Ok {
            lemma_list_scopes(list, pos + 1, a.count, a.table, code + a.code());
        }
    }
}

proof fn lemma_args_scopes(
    list: Seq<NodeView>,
    pos: int,
    c: Count,
    t: SymTableView,
    code: Seq<InstructionView>,
    args: Seq<Operand>,
)
    requires
        0 <= pos,
    ensures
        lower_args(list, pos, c, t, code, args).1.scopes == t.scopes,
    decreases list, list.len() - pos,
{
    if pos < list.len() {
        lemma_lower_scopes(list[pos], c, t);
        let a = lower(list[pos], c, t);
        if a.result is Ok && a.tmp() is Some {
            let v = a.result->Ok_0;
            lemma_args_scopes(
                list,
                pos + 1,
                a.count,
                a.table,
                code + v.instructions,
                args.push(v.tmp->Some_0),
            );
        }
    }
}

/// How many of the functions of a list from `pos` on have identity `id`.
pub open spec fn defined(list: Seq<NodeView>, pos: int, t: SymTableView, id: i32) -> nat
    decreases list.len() - pos,
{
    if pos < 0 || pos >= list.len() {
        0
    } else {
        defined(list, pos + 1, t, id) + if identity(list[pos], t) == Some(id) {
            1nat
        } else {
            0nat
        }
    }
}

/// Every item of the list is a function whose body defines no function.
pub open spec fn functions_only(list: Seq<NodeView>) -> bool {
    forall|k: int|
        0 <= k < list.len() ==> (#[trigger] list[k]) is Function && function_free(
            *(list[k]->Function_statements),
        )
}

/// In the instructions of a list of functions, the head and the tail of
/// identity `id` are marked as often as the list defines a function of
/// that identity.
pub proof fn lemma_program_function_labels(
    list: Seq<NodeView>,
    pos: int,
    c: Count,
    t: SymTableView,
    code: Seq<InstructionView>,
    l: Label,
)
    requires
        0 <= pos,
        functions_only(list),
        of_function(l),
    ensures
        ({
            let done = lower_list(list, pos, c, t, code);
            done.result is Ok ==> count(done.code(), marks(l)) == count(code, marks(l)) + defined(
                list,
                pos,
                t,
                number(l) as i32,
            )
        }),
    decreases list.len() - pos,
{
    if pos < list.len() {
        lemma_function_labels(list[pos], c, t, l);
        lemma_lower_scopes(list[pos], c, t);
        let a = super::instructions::as_statement(lower(list[pos], c, t));
        if a.result is Ok {
            lemma_count_add(code, a.code(), marks(l));
            lemma_program_function_labels(list, pos + 1, a.count, a.table, code + a.code(), l);
            lemma_defined_scopes(list, pos + 1, a.table, t, number(l) as i32);
        }
    }
}

/// The identities of functions depend on the scopes of the table alone.
proof fn lemma_defined_scopes(list: Seq<NodeView>, pos: int, a: SymTableView, b: SymTableView, id: i32)
    requires
        a.scopes == b.scopes,
    ensures
        defined(list, pos, a, id) == defined(list, pos, b, id),
    decreases list.len() - pos,
{
    if 0 <= pos < list.len() {
        lemma_defined_scopes(list, pos + 1, a, b, id);
    }
}

/// In the instructions of a program whose functions have identities of
/// their own, the head and the tail of each function are marked exactly
/// once.
pub proof fn lemma_function_labels_once(node: NodeView, c: Count, t: SymTableView, k: int)
    requires
        node is StatementList,
        functions_only(node->StatementList_statements),
        lower(node, c, t).result is Ok,
        0 <= k < node->StatementList_statements.len(),
        forall|i: int, j: int|
            0 <= i < j < node->StatementList_statements.len() ==> identity(
                #[trigger] node->StatementList_statements[i],
                t,
            ) != identity(#[trigger] node->StatementList_statements[j], t),
    ensures
        identity(node->StatementList_statements[k], t) matches Some(id) && count(
            lower(node, c, t).code(),
            marks(Label::FunctionHead(id)),
        ) == 1 && count(lower(node, c, t).code(), marks(Label::FunctionTail(id))) == 1,
{
    let list = node->StatementList_statements;
    lemma_list_identities(list, 0, c, t, Seq::empty(), k);
    let id = identity(list[k], t)->Some_0;
    lemma_count_one(InstructionView::bare(VariantView::Ret), marks(Label::FunctionHead(id)));
    lemma_count_one(InstructionView::bare(VariantView::Ret), marks(Label::FunctionTail(id)));
    lemma_program_function_labels(list, 0, c, t, Seq::empty(), Label::FunctionHead(id));
    lemma_program_function_labels(list, 0, c, t, Seq::empty(), Label::FunctionTail(id));
    lemma_defined_once(list, 0, t, k);
}

/// A list of functions that lowers has an identity for each of them.
proof fn lemma_list_identities(
    list: Seq<NodeView>,
    pos: int,
    c: Count,
    t: SymTableView,
    code: Seq<InstructionView>,
    k: int,
)
    requires
        0 <= pos <= k < list.len(),
        functions_only(list),
        lower_list(list, pos, c, t, code).result is Ok,
    ensures
        identity(list[k], t) is Some,
    decreases list.len() - pos,
{
    lemma_function_labels(list[pos], c, t, Label::FunctionHead(0));
    lemma_lower_scopes(list[pos], c, t);
    let a = super::instructions::as_statement(lower(list[pos], c, t));
    if pos < k {
        lemma_list_identities(list, pos + 1, a.count, a.table, code + a.code(), k);
    }
}

/// Among functions with identities of their own, one identity is defined
/// once.
proof fn lemma_defined_once(list: Seq<NodeView>, pos: int, t: SymTableView, k: int)
    requires
        0 <= pos,
        0 <= k < list.len(),
        identity(list[k], t) is Some,
        forall|i: int, j: int|
            0 <= i < j < list.len() ==> identity(#[trigger] list[i], t) != identity(
                #[trigger] list[j],
                t,
            ),
    ensures
        defined(list, pos, t, identity(list[k], t)->Some_0) == if pos <= k {
            1nat
        } else {
            0nat
        },
    decreases list.len() - pos,
{
    if pos < list.len() {
        lemma_defined_once(list, pos + 1, t, k);
        if pos != k {
            if pos < k {
                assert(identity(list[pos], t) != identity(list[k], t));
            } else {
                assert(identity(list[k], t) != identity(list[pos], t));
            }
        }
    }
}

/// Whether an instruction calls anything but the head of a function whose
/// identity is in `ids`.
pub open spec fn calls_outside(ids: Set<int>) -> spec_fn(InstructionView) -> bool {
    |i: InstructionView|
        i.variant matches VariantView::Call(l, _) && !(l is FunctionHead && ids.contains(number(l)))
}

/// Every function that is called inside the node has its identity in
/// `ids`, as the scopes of the table have it.
pub open spec fn callees_in(node: NodeView, t: SymTableView, ids: Set<int>) -> bool
    decreases node,
{
    match node {
        NodeView::Empty
        | NodeView::FloatLit { .. }
        | NodeView::IntLit { .. }
        | NodeView::Var { .. } => true,
        NodeView::Free { expr } => callees_in(*expr, t, ids),
        NodeView::Malloc { expr, .. } => callees_in(*expr, t, ids),
        NodeView::Write { expr, .. } => callees_in(*expr, t, ids),
        NodeView::UnaryOp { expr, .. } => callees_in(*expr, t, ids),
        NodeView::Cast { expr, .. } => callees_in(*expr, t, ids),
        NodeView::Address { expr, .. } => callees_in(*expr, t, ids),
        NodeView::Dereference { expr, .. } => callees_in(*expr, t, ids),
        NodeView::Reference { expr, .. } => callees_in(*expr, t, ids),
        NodeView::Read { var, .. } => callees_in(*var, t, ids),
        NodeView::Return { expr, .. } => callees_in(*expr, t, ids),
        NodeView::BinaryOp { lhs, rhs, .. } => callees_in(*lhs, t, ids) && callees_in(*rhs, t, ids),
        NodeView::ConditionalOp { lhs, rhs, .. } => callees_in(*lhs, t, ids) && callees_in(
            *rhs,
            t,
            ids,
        ),
        NodeView::Assign { lhs, rhs, .. } => callees_in(*lhs, t, ids) && callees_in(*rhs, t, ids),
        NodeView::IfElse { cond, lhs, rhs } => callees_in(*cond, t, ids) && callees_in(*lhs, t, ids)
            && callees_in(*rhs, t, ids),
        NodeView::While { cond, statements } => callees_in(*cond, t, ids) && callees_in(
            *statements,
            t,
            ids,
        ),
        NodeView::StatementList { statements } => forall|k: int|
            0 <= k < statements.len() ==> callees_in(#[trigger] statements[k], t, ids),
        NodeView::Function { statements, .. } => callees_in(*statements, t, ids),
        NodeView::Call { ident, scope, arguments, .. } => (t.get_symbol_in_scope(ident, scope) matches Ok(
            symbol,
        ) ==> ids.contains(symbol.address() as int)) && forall|k: int|
            0 <= k < arguments.len() ==> callees_in(#[trigger] arguments[k], t, ids),
    }
}

/// What is called depends on the scopes of the table alone.
proof fn lemma_callees_scopes(node: NodeView, a: SymTableView, b: SymTableView, ids: Set<int>)
    requires
        a.scopes == b.scopes,
    ensures
        callees_in(node, a, ids) == callees_in(node, b, ids),
    decreases node,
{
    match node {
        NodeView::Empty
        | NodeView::FloatLit { .. }
        | NodeView::IntLit { .. }
        | NodeView::Var { .. } => {},
        NodeView::Free { expr } => lemma_callees_scopes(*expr, a, b, ids),
        NodeView::Malloc { expr, .. } => lemma_callees_scopes(*expr, a, b, ids),
        NodeView::Write { expr, .. } => lemma_callees_scopes(*expr, a, b, ids),
        NodeView::UnaryOp { expr, .. } => lemma_callees_scopes(*expr, a, b, ids),
        NodeView::Cast { expr, .. } => lemma_callees_scopes(*expr, a, b, ids),
        NodeView::Address { expr, .. } => lemma_callees_scopes(*expr, a, b, ids),
        NodeView::Dereference { expr, .. } => lemma_callees_scopes(*expr, a, b, ids),
        NodeView::Reference { expr, .. } => lemma_callees_scopes(*expr, a, b, ids),
        NodeView::Read { var, .. } => lemma_callees_scopes(*var, a, b, ids),
        NodeView::Return { expr, .. } => lemma_callees_scopes(*expr, a, b, ids),
        NodeView::BinaryOp { lhs, rhs, .. } => {
            lemma_callees_scopes(*lhs, a, b, ids);
            lemma_callees_scopes(*rhs, a, b, ids);
        },
        NodeView::ConditionalOp { lhs, rhs, .. } => {
            lemma_callees_scopes(*lhs, a, b, ids);
            lemma_callees_scopes(*rhs, a, b, ids);
        },
        NodeView::Assign { lhs, rhs, .. } => {
            lemma_callees_scopes(*lhs, a, b, ids);
            lemma_callees_scopes(*rhs, a, b, ids);
        },
        NodeView::IfElse { cond, lhs, rhs } => {
            lemma_callees_scopes(*cond, a, b, ids);
            lemma_callees_scopes(*lhs, a, b, ids);
            lemma_callees_scopes(*rhs, a, b, ids);
        },
        NodeView::While { cond, statements } => {
            lemma_callees_scopes(*cond, a, b, ids);
            lemma_callees_scopes(*statements, a, b, ids);
        },
        NodeView::StatementList { statements } => {
            assert forall|k: int| 0 <= k < statements.len() implies callees_in(
                #[trigger] statements[k],
                a,
                ids,
            ) == callees_in(statements[k], b, ids) by {
                lemma_callees_scopes(statements[k], a, b, ids);
            }
        },
        NodeView::Function { statements, .. } => lemma_callees_scopes(*statements, a, b, ids),
        NodeView::Call { arguments, .. } => {
            assert forall|k: int| 0 <= k < arguments.len() implies callees_in(
                #[trigger] arguments[k],
                a,
                ids,
            ) == callees_in(arguments[k], b, ids) by {
                lemma_callees_scopes(arguments[k], a, b, ids);
            }
        },
    }
}

proof fn lemma_calls_control(ids: Set<int>)
    ensures
        only_control_or_call(calls_outside(ids)),
{
}

/// The call of a node calls the head of the function that the node names.
proof fn lemma_calling_count(
    node: NodeView,
    c: Count,
    t: SymTableView,
    code: Seq<InstructionView>,
    args: Seq<Operand>,
    ids: Set<int>,
)
    requires
        node is Call,
        t.get_symbol_in_scope(node->Call_ident, node->Call_scope) matches Ok(symbol) ==> ids.contains(
            symbol.address() as int,
        ),
    ensures
        ({
            let u = calling(node, c, t, code, args);
            u.result is Ok ==> count(u.code(), calls_outside(ids)) == count(code, calls_outside(ids))
        }),
{
    reveal(calling);
    let u = calling(node, c, t, code, args);
    if u.result is Ok {
        match node {
            NodeView::Call { ctype, .. } => {
                lemma_fresh(ctype, c);
                lemma_count_push(code, u.code().last(), calls_outside(ids));
                assert(u.code() == code.push(u.code().last()));
            },
            _ => {},
        }
    }
}

/// In the instructions of a node, every call calls the head of a function
/// whose identity is in `ids`, where every function that is called inside
/// the node has its identity there.
pub proof fn lemma_calls(node: NodeView, c: Count, t: SymTableView, ids: Set<int>)
    requires
        callees_in(node, t, ids),
    ensures
        lower(node, c, t).result is Ok ==> count(lower(node, c, t).code(), calls_outside(ids)) == 0,
    decreases node, 1int,
{
    let p = calls_outside(ids);
    lemma_calls_control(ids);
    match node {
        NodeView::Empty
        | NodeView::FloatLit { .. }
        | NodeView::IntLit { .. }
        | NodeView::Var { .. } => {
            lemma_leaf_quiet(node, c, t, p);
        },
        NodeView::Free { expr } => {
            lemma_calls(*expr, c, t, ids);
            lemma_unary_quiet(node, lower(*expr, c, t), calls_outside(ids));
        },
        NodeView::Malloc { expr, .. } => {
            lemma_calls(*expr, c, t, ids);
            lemma_unary_quiet(node, lower(*expr, c, t), calls_outside(ids));
        },
        NodeView::Write { expr, .. } => {
            lemma_calls(*expr, c, t, ids);
            lemma_unary_quiet(node, lower(*expr, c, t), calls_outside(ids));
        },
        NodeView::UnaryOp { expr, .. } => {
            lemma_calls(*expr, c, t, ids);
            lemma_unary_quiet(node, lower(*expr, c, t), calls_outside(ids));
        },
        NodeView::Cast { expr, .. } => {
            lemma_calls(*expr, c, t, ids);
            lemma_unary_quiet(node, lower(*expr, c, t), calls_outside(ids));
        },
        NodeView::Address { expr, .. } => {
            lemma_calls(*expr, c, t, ids);
            lemma_unary_quiet(node, lower(*expr, c, t), calls_outside(ids));
        },
        NodeView::Dereference { expr, .. } => {
            lemma_calls(*expr, c, t, ids);
            lemma_unary_quiet(node, lower(*expr, c, t), calls_outside(ids));
        },
        NodeView::Reference { expr, .. } => {
            lemma_calls(*expr, c, t, ids);
            lemma_unary_quiet(node, lower(*expr, c, t), calls_outside(ids));
        },
        NodeView::Read { var, .. } => {
            lemma_calls(*var, c, t, ids);
            lemma_unary_quiet(node, lower(*var, c, t), calls_outside(ids));
        },
        NodeView::Return { ctype, expr, .. } => {
            if ctype is Void {
                lemma_leaf_quiet(node, c, t, p);
            } else {
                lemma_calls(*expr, c, t, ids);
                lemma_unary_quiet(node, lower(*expr, c, t), p);
            }
        },
        NodeView::BinaryOp { .. } | NodeView::ConditionalOp { .. } | NodeView::Assign { .. } => {
            lemma_calls_over_two(node, c, t, ids);
        },
        NodeView::IfElse { .. } | NodeView::While { .. } => {
            lemma_calls_block(node, c, t, ids);
        },
        NodeView::StatementList { statements } => {
            lemma_count_one(InstructionView::bare(VariantView::Ret), p);
            lemma_list_calls(statements, 0, c, t, Seq::empty(), ids);
        },
        NodeView::Function { ident, scope, statements } => {
            let (count0, table, entered) = super::instructions::enter(ident, scope, c, t);
            match entered {
                Err(_) => {},
                Ok((id, offset)) => {
                    lemma_callees_scopes(*statements, t, table, ids);
                    lemma_calls(*statements, count0, table, ids);
                    let body = lower(*statements, count0, table);
                    lemma_framed_count(id, offset, body, p);
                    lemma_count_one(
                        InstructionView::bare(VariantView::Label(Label::FunctionHead(id))),
                        p,
                    );
                    lemma_count_one(
                        InstructionView::bare(VariantView::Label(Label::FunctionTail(id))),
                        p,
                    );
                    lemma_count_one(InstructionView::bare(VariantView::Ret), p);
                    lemma_count_one(
                        InstructionView::bare(VariantView::Alloc((-offset) as u32)),
                        p,
                    );
                },
            }
        },
        NodeView::Call { arguments, .. } => {
            lemma_count_one(InstructionView::bare(VariantView::Ret), p);
            lemma_args_calls(arguments, 0, c, t, Seq::empty(), Seq::empty(), ids);
            lemma_args_scopes(arguments, 0, c, t, Seq::empty(), Seq::empty());
            let (count, table, r) = lower_args(arguments, 0, c, t, Seq::empty(), Seq::empty());
            if r is Ok {
                let (code, args) = r->Ok_0;
                lemma_calling_count(node, count, table, code, args, ids);
            }
        },
    }
}

proof fn lemma_calls_over_two(node: NodeView, c: Count, t: SymTableView, ids: Set<int>)
    requires
        callees_in(node, t, ids),
        node is BinaryOp || node is ConditionalOp || node is Assign,
    ensures
        lower(node, c, t).result is Ok ==> count(lower(node, c, t).code(), calls_outside(ids)) == 0,
    decreases node, 0int,
{
    let p = calls_outside(ids);
    match node {
        NodeView::BinaryOp { lhs, rhs, .. } => {
            lemma_calls(*lhs, c, t, ids);
            let a = lower(*lhs, c, t);
            if a.result is Ok {
                lemma_lower_scopes(*lhs, c, t);
                lemma_callees_scopes(*rhs, t, a.table, ids);
                lemma_calls(*rhs, a.count, a.table, ids);
                lemma_binary_quiet(node, a, lower(*rhs, a.count, a.table), p);
            }
        },
        NodeView::ConditionalOp { lhs, rhs, .. } => {
            lemma_calls(*lhs, c, t, ids);
            let a = lower(*lhs, c, t);
            if a.result is Ok {
                lemma_lower_scopes(*lhs, c, t);
                lemma_callees_scopes(*rhs, t, a.table, ids);
                lemma_calls(*rhs, a.count, a.table, ids);
                lemma_binary_quiet(node, a, lower(*rhs, a.count, a.table), p);
            }
        },
        NodeView::Assign { lhs, rhs, .. } => {
            assert(callees_in(*lhs, t, ids) && callees_in(*rhs, t, ids));
            match *lhs {
                NodeView::Address { expr, .. } => {
                    assert(callees_in(*expr, t, ids));
                    lemma_calls(*expr, c, t, ids);
                    let a = lower(*expr, c, t);
                    if a.result is Ok {
                        lemma_lower_scopes(*expr, c, t);
                        lemma_callees_scopes(*rhs, t, a.table, ids);
                        lemma_calls(*rhs, a.count, a.table, ids);
                        lemma_binary_quiet(node, a, lower(*rhs, a.count, a.table), p);
                    }
                },
                _ => {
                    lemma_calls(*lhs, c, t, ids);
                    let a = lower(*lhs, c, t);
                    if a.result is Ok {
                        lemma_lower_scopes(*lhs, c, t);
                        lemma_callees_scopes(*rhs, t, a.table, ids);
                        lemma_calls(*rhs, a.count, a.table, ids);
                        lemma_binary_quiet(node, a, lower(*rhs, a.count, a.table), p);
                    }
                },
            }
        },
        _ => {},
    }
}

proof fn lemma_calls_block(node: NodeView, c: Count, t: SymTableView, ids: Set<int>)
    requires
        callees_in(node, t, ids),
        node is IfElse || node is While,
    ensures
        lower(node, c, t).result is Ok ==> count(lower(node, c, t).code(), calls_outside(ids)) == 0,
    decreases node, 0int,
{
    let p = calls_outside(ids);
    match super::instructions::next_label(c) {
        None => {},
        Some(bumped) => {
            let m = bumped.label;
            lemma_count_one(InstructionView::bare(VariantView::Jump(Label::BlockJump(m))), p);
            lemma_count_one(InstructionView::bare(VariantView::Label(Label::BlockBranch(m))), p);
            lemma_count_one(InstructionView::bare(VariantView::Label(Label::BlockJump(m))), p);
            match node {
                NodeView::IfElse { cond, lhs, rhs } => {
                    lemma_calls(*cond, bumped, t, ids);
                    lemma_lower_scopes(*cond, bumped, t);
                    let a = super::instructions::as_statement(lower(*cond, bumped, t));
                    if a.result is Ok {
                        lemma_callees_scopes(*lhs, t, a.table, ids);
                        lemma_calls(*lhs, a.count, a.table, ids);
                        lemma_lower_scopes(*lhs, a.count, a.table);
                        let b = super::instructions::as_statement(lower(*lhs, a.count, a.table));
                        if b.result is Ok {
                            lemma_callees_scopes(*rhs, t, b.table, ids);
                            lemma_calls(*rhs, b.count, b.table, ids);
                            let d = super::instructions::as_statement(
                                lower(*rhs, b.count, b.table),
                            );
                            if d.result is Ok {
                                lemma_branching_count(m, a, b, d, p);
                            }
                        }
                    }
                },
                NodeView::While { cond, statements } => {
                    lemma_calls(*cond, bumped, t, ids);
                    lemma_lower_scopes(*cond, bumped, t);
                    let a = super::instructions::as_statement(lower(*cond, bumped, t));
                    if a.result is Ok {
                        lemma_callees_scopes(*statements, t, a.table, ids);
                        lemma_calls(*statements, a.count, a.table, ids);
                        let b = super::instructions::as_statement(
                            lower(*statements, a.count, a.table),
                        );
                        if b.result is Ok {
                            lemma_looping_count(m, a, b, p);
                        }
                    }
                },
                _ => {},
            }
        },
    }
}

proof fn lemma_list_calls(
    list: Seq<NodeView>,
    pos: int,
    c: Count,
    t: SymTableView,
    code: Seq<InstructionView>,
    ids: Set<int>,
)
    requires
        0 <= pos,
        forall|k: int| 0 <= k < list.len() ==> callees_in(#[trigger] list[k], t, ids),
    ensures
        ({
            let done = lower_list(list, pos, c, t, code);
            done.result is Ok ==> count(done.code(), calls_outside(ids)) == count(
                code,
                calls_outside(ids),
            )
        }),
    decreases list, list.len() - pos,
{
    if pos < list.len() {
        lemma_calls(list[pos], c, t, ids);
        lemma_lower_scopes(list[pos], c, t);
        let a = super::instructions::as_statement(lower(list[pos], c, t));
        if a.result is Ok {
            lemma_count_add(code, a.code(), calls_outside(ids));
            assert forall|k: int| 0 <= k < list.len() implies callees_in(
                #[trigger] list[k],
                a.table,
                ids,
            ) by {
                lemma_callees_scopes(list[k], t, a.table, ids);
            }
            lemma_list_calls(list, pos + 1, a.count, a.table, code + a.code(), ids);
        }
    }
}

proof fn lemma_args_calls(
    list: Seq<NodeView>,
    pos: int,
    c: Count,
    t: SymTableView,
    code: Seq<InstructionView>,
    args: Seq<Operand>,
    ids: Set<int>,
)
    requires
        0 <= pos,
        forall|k: int| 0 <= k < list.len() ==> callees_in(#[trigger] list[k], t, ids),
    ensures
        ({
            let (count_after, table, r) = lower_args(list, pos, c, t, code, args);
            r is Ok ==> count(r->Ok_0.0, calls_outside(ids)) == count(code, calls_outside(ids))
        }),
    decreases list, list.len() - pos,
{
    if pos < list.len() {
        lemma_calls(list[pos], c, t, ids);
        lemma_lower_scopes(list[pos], c, t);
        let a = lower(list[pos], c, t);
        if a.result is Ok && a.tmp() is Some {
            let v = a.result->Ok_0;
            lemma_count_add(code, v.instructions, calls_outside(ids));
            assert forall|k: int| 0 <= k < list.len() implies callees_in(
                #[trigger] list[k],
                a.table,
                ids,
            ) by {
                lemma_callees_scopes(list[k], t, a.table, ids);
            }
            lemma_args_calls(
                list,
                pos + 1,
                a.count,
                a.table,
                code + v.instructions,
                args.push(v.tmp->Some_0),
                ids,
            );
        }
    }
}

/// The identities of the functions that a list defines.
pub open spec fn identities(list: Seq<NodeView>, t: SymTableView) -> Set<int> {
    Set::new(|id: int| exists|k: int| 0 <= k < list.len() && identity(#[trigger] list[k], t) == Some(id as i32) && i32::MIN <= id <= i32::MAX)
}

/// In the instructions of a program whose functions have identities of
/// their own and call only functions that the program defines, every call
/// calls a head that is marked exactly once.
pub proof fn lemma_calls_defined(node: NodeView, c: Count, t: SymTableView, k: int)
    requires
        node is StatementList,
        functions_only(node->StatementList_statements),
        callees_in(node, t, identities(node->StatementList_statements, t)),
        forall|i: int, j: int|
            0 <= i < j < node->StatementList_statements.len() ==> identity(
                #[trigger] node->StatementList_statements[i],
                t,
            ) != identity(#[trigger] node->StatementList_statements[j], t),
        lower(node, c, t).result is Ok,
        0 <= k < lower(node, c, t).code().len(),
        lower(node, c, t).code()[k].variant is Call,
    ensures
        lower(node, c, t).code()[k].variant matches VariantView::Call(l, _) && l is FunctionHead
            && count(lower(node, c, t).code(), marks(l)) == 1,
{
    let list = node->StatementList_statements;
    let ids = identities(list, t);
    let code = lower(node, c, t).code();
    lemma_calls(node, c, t, ids);
    lemma_count_zero(code, calls_outside(ids), k);
    let l = code[k].variant->Call_0;
    let id = number(l);
    assert(ids.contains(id));
    let j = choose|j: int| 0 <= j < list.len() && identity(#[trigger] list[j], t) == Some(id as i32);
    lemma_function_labels_once(node, c, t, j);
}

/// A comparison that lowers has two operands, and gives none.
proof fn lemma_compare_operands(node: NodeView, c: Count, t: SymTableView)
    requires
        node is ConditionalOp,
        lower(node, c, t).result is Ok,
    ensures
        lower(node, c, t).tmp() is None,
        ({
            let l = lower(*(node->ConditionalOp_lhs), c, t);
            l.result is Ok && l.tmp() is Some && lower(
                *(node->ConditionalOp_rhs),
                l.count,
                l.table,
            ).result is Ok && lower(*(node->ConditionalOp_rhs), l.count, l.table).tmp() is Some
        }),
{
    reveal(binary);
}

/// Comparisons that lower are an expression, or one comparison of two
/// expressions.
proof fn lemma_compares_condition(node: NodeView, c: Count, t: SymTableView)
    requires
        crate::ast::shape::compares(node),
        lower(node, c, t).result is Ok,
    ensures
        condition(node),
{
    if !calm(node) {
        match node {
            NodeView::ConditionalOp { lhs, rhs, .. } => {
                lemma_compare_operands(node, c, t);
                let l = lower(*lhs, c, t);
                assert(crate::ast::shape::compares(*lhs));
                assert(crate::ast::shape::compares(*rhs));
                if *lhs is ConditionalOp {
                    lemma_compare_operands(*lhs, c, t);
                } else {
                    assert(calm(*lhs));
                }
                if *rhs is ConditionalOp {
                    lemma_compare_operands(*rhs, l.count, l.table);
                } else {
                    assert(calm(*rhs));
                }
            },
            _ => {},
        }
    }
}

/// Statements that lower are structured.
pub proof fn lemma_shaped_structured(node: NodeView, c: Count, t: SymTableView)
    requires
        crate::ast::shape::shaped(node),
        lower(node, c, t).result is Ok,
    ensures
        structured(node),
    decreases node, 1int,
{
    match node {
        NodeView::IfElse { cond, lhs, rhs } => {
            match super::instructions::next_label(c) {
                None => {},
                Some(bumped) => {
                    let a = super::instructions::as_statement(lower(*cond, bumped, t));
                    lemma_compares_condition(*cond, bumped, t);
                    let b = super::instructions::as_statement(lower(*lhs, a.count, a.table));
                    lemma_shaped_structured(*lhs, a.count, a.table);
                    lemma_shaped_structured(*rhs, b.count, b.table);
                },
            }
        },
        NodeView::While { cond, statements } => {
            match super::instructions::next_label(c) {
                None => {},
                Some(bumped) => {
                    let a = super::instructions::as_statement(lower(*cond, bumped, t));
                    lemma_compares_condition(*cond, bumped, t);
                    lemma_shaped_structured(*statements, a.count, a.table);
                },
            }
        },
        NodeView::StatementList { statements } => {
            lemma_list_structured(statements, 0, c, t, Seq::empty());
        },
        _ => {},
    }
}

proof fn lemma_list_structured(
    list: Seq<NodeView>,
    pos: int,
    c: Count,
    t: SymTableView,
    code: Seq<InstructionView>,
)
    requires
        0 <= pos,
        forall|k: int| 0 <= k < list.len() ==> crate::ast::shape::shaped(#[trigger] list[k]),
        lower_list(list, pos, c, t, code).result is Ok,
    ensures
        forall|k: int| pos <= k < list.len() ==> structured(#[trigger] list[k]),
    decreases list, list.len() - pos,
{
    if pos < list.len() {
        let a = super::instructions::as_statement(lower(list[pos], c, t));
        lemma_shaped_structured(list[pos], c, t);
        lemma_list_structured(list, pos + 1, a.count, a.table, code + a.code());
        assert forall|k: int| pos <= k < list.len() implies structured(#[trigger] list[k]) by {
            if k > pos {
            }
        }
    }
}

proof fn lemma_functions_structured(
    list: Seq<NodeView>,
    pos: int,
    c: Count,
    t: SymTableView,
    code: Seq<InstructionView>,
)
    requires
        0 <= pos,
        forall|k: int|
            0 <= k < list.len() ==> (#[trigger] list[k]) is Function && crate::ast::shape::shaped(
                *(list[k]->Function_statements),
            ),
        lower_list(list, pos, c, t, code).result is Ok,
    ensures
        forall|k: int| pos <= k < list.len() ==> structured(#[trigger] list[k]),
    decreases list.len() - pos,
{
    if pos < list.len() {
        let a = super::instructions::as_statement(lower(list[pos], c, t));
        match list[pos] {
            NodeView::Function { ident, scope, statements } => {
                let (count0, table, entered) = super::instructions::enter(ident, scope, c, t);
                lemma_shaped_structured(*statements, count0, table);
            },
            _ => {},
        }
        lemma_functions_structured(list, pos + 1, a.count, a.table, code + a.code());
        assert forall|k: int| pos <= k < list.len() implies structured(#[trigger] list[k]) by {
            if k > pos {
            }
        }
    }
}

/// A program of functions over statements that lowers is structured: in
/// its instructions every branch and every jump to the label of a branch
/// or a loop goes to a label that is marked exactly once.
pub proof fn lemma_program_block_labels(node: NodeView, c: Count, t: SymTableView, k: int)
    requires
        crate::ast::shape::program_shaped(node),
        lower(node, c, t).result is Ok,
        0 <= k < lower(node, c, t).code().len(),
        aims(lower(node, c, t).code()[k]) matches Some(l) && block(l),
    ensures
        structured(node),
        count(lower(node, c, t).code(), marks(aims(lower(node, c, t).code()[k])->Some_0)) == 1,
{
    lemma_functions_structured(node->StatementList_statements, 0, c, t, Seq::empty());
    lemma_block_labels(node, c, t, k);
}

/// An expression or a plain statement defines no function.
pub proof fn lemma_calm_function_free(node: NodeView)
    requires
        calm(node),
    ensures
        function_free(node),
    decreases node,
{
    match node {
        NodeView::Free { expr } => lemma_calm_function_free(*expr),
        NodeView::Malloc { expr, .. } => lemma_calm_function_free(*expr),
        NodeView::Write { expr, .. } => lemma_calm_function_free(*expr),
        NodeView::UnaryOp { expr, .. } => lemma_calm_function_free(*expr),
        NodeView::Cast { expr, .. } => lemma_calm_function_free(*expr),
        NodeView::Address { expr, .. } => lemma_calm_function_free(*expr),
        NodeView::Dereference { expr, .. } => lemma_calm_function_free(*expr),
        NodeView::Reference { expr, .. } => lemma_calm_function_free(*expr),
        NodeView::Read { var, .. } => lemma_calm_function_free(*var),
        NodeView::Return { expr, .. } => lemma_calm_function_free(*expr),
        NodeView::BinaryOp { lhs, rhs, .. } => {
            lemma_calm_function_free(*lhs);
            lemma_calm_function_free(*rhs);
        },
        NodeView::Assign { lhs, rhs, .. } => {
            lemma_calm_function_free(*lhs);
            lemma_calm_function_free(*rhs);
        },
        NodeView::Call { arguments, .. } => {
            assert forall|k: int| 0 <= k < arguments.len() implies function_free(
                #[trigger] arguments[k],
            ) by {
                lemma_calm_function_free(arguments[k]);
            }
        },
        _ => {},
    }
}

proof fn lemma_compares_function_free(node: NodeView)
    requires
        crate::ast::shape::compares(node),
    ensures
        function_free(node),
    decreases node,
{
    if calm(node) {
        lemma_calm_function_free(node);
    } else {
        match node {
            NodeView::ConditionalOp { lhs, rhs, .. } => {
                lemma_compares_function_free(*lhs);
                lemma_compares_function_free(*rhs);
            },
            _ => {},
        }
    }
}

/// Statements define no function.
pub proof fn lemma_shaped_function_free(node: NodeView)
    requires
        crate::ast::shape::shaped(node),
    ensures
        function_free(node),
    decreases node,
{
    match node {
        NodeView::IfElse { cond, lhs, rhs } => {
            lemma_compares_function_free(*cond);
            lemma_shaped_function_free(*lhs);
            lemma_shaped_function_free(*rhs);
        },
        NodeView::While { cond, statements } => {
            lemma_compares_function_free(*cond);
            lemma_shaped_function_free(*statements);
        },
        NodeView::StatementList { statements } => {
            assert forall|k: int| 0 <= k < statements.len() implies function_free(
                #[trigger] statements[k],
            ) by {
                lemma_shaped_function_free(statements[k]);
            }
        },
        NodeView::Function { .. } => {},
        _ => {
            lemma_calm_function_free(node);
        },
    }
}

/// A program of functions over statements is a list of functions whose
/// bodies define no function.
pub proof fn lemma_program_functions_only(node: NodeView)
    requires
        crate::ast::shape::program_shaped(node),
    ensures
        node is StatementList,
        functions_only(node->StatementList_statements),
{
    let list = node->StatementList_statements;
    assert forall|k: int| 0 <= k < list.len() implies (#[trigger] list[k]) is Function
        && function_free(*(list[k]->Function_statements)) by {
        lemma_shaped_function_free(*(list[k]->Function_statements));
    }
}

} // verus!
