use super::live_set::LiveSet;
use crate::three_ac::instruction::InstructionView;
use crate::three_ac::instruction::VariantView;
use crate::three_ac::instructions::views;
use crate::three_ac::Instruction;
use crate::three_ac::Operand;
use crate::three_ac::Variant;
use std::collections::VecDeque;
use vstd::prelude::*;

verus! {

/// A set with an operand added, unless the operand is `Null`.
pub open spec fn used(set: Set<Operand>, op: Operand) -> Set<Operand> {
    if op.spillable() {
        set.insert(op)
    } else {
        set
    }
}

/// A set with an operand taken out, unless the operand is `Null`.
pub open spec fn defined(set: Set<Operand>, op: Operand) -> Set<Operand> {
    if op.spillable() {
        set.remove(op)
    } else {
        set
    }
}

/// A set with the first `k` of a list of operands added.
pub open spec fn used_all(set: Set<Operand>, ops: Seq<Operand>, k: int) -> Set<Operand>
    decreases k,
{
    if k <= 0 {
        set
    } else {
        used(used_all(set, ops, k - 1), ops[k - 1])
    }
}

/// The operands that are live before an instruction, from those that are
/// live after it: what the instruction writes is taken out, then what it
/// reads is added.
pub open spec fn live_before(i: InstructionView, after: Set<Operand>) -> Set<Operand> {
    match i.variant {
        VariantView::AddrAssign => used(used(after, i.opdt), i.opm),
        VariantView::Assign
        | VariantView::Malloc
        | VariantView::Negate
        | VariantView::Cast
        | VariantView::Address
        | VariantView::Dereference
        | VariantView::Reference => used(defined(after, i.opdt), i.opm),
        VariantView::Get | VariantView::Load(_) => defined(after, i.opdt),
        VariantView::Put
        | VariantView::PutS
        | VariantView::Ret
        | VariantView::Save
        | VariantView::Free => used(after, i.opdt),
        VariantView::Plus | VariantView::Minus | VariantView::Times | VariantView::Divide => used(
            used(defined(after, i.opdt), i.opm),
            i.opn,
        ),
        VariantView::Equal(_)
        | VariantView::NotEqual(_)
        | VariantView::Less(_)
        | VariantView::LessEqual(_)
        | VariantView::Greater(_)
        | VariantView::GreaterEqual(_) => used(used(after, i.opm), i.opn),
        VariantView::Call(_, args) => used_all(defined(after, i.opdt), args, args.len() as int),
        VariantView::HeaderText(_)
        | VariantView::HeaderStrings(_)
        | VariantView::Label(_)
        | VariantView::Jump(_)
        | VariantView::Alloc(_)
        | VariantView::SpillRegisters => after,
    }
}

/// The operands that are live before instruction `k` of a block, given
/// those that are live where the block ends.
pub open spec fn live_in(block: Seq<InstructionView>, seed: Set<Operand>, k: int) -> Set<Operand>
    decreases block.len() - k,
{
    if k < 0 || k >= block.len() {
        seed
    } else {
        live_before(block[k], live_in(block, seed, k + 1))
    }
}

/// The operands that are live after instruction `k` of a block.
pub open spec fn live_after(block: Seq<InstructionView>, seed: Set<Operand>, k: int) -> Set<
    Operand,
> {
    live_in(block, seed, k + 1)
}

fn use_all(set: &mut LiveSet, ops: &Vec<Operand>)
    ensures
        final(set)@ == used_all(old(set)@, ops@, ops@.len() as int),
{
    let mut k: usize = 0;
    while k < ops.len()
        invariant
            k <= ops@.len(),
            set@ == used_all(old(set)@, ops@, k as int),
        decreases ops@.len() - k,
    {
        ops[k].insert_to_set(set);
        k += 1;
    }
}

/// Steps a live set back over one instruction.
fn step_back(i: &Instruction, set: &mut LiveSet)
    ensures
        final(set)@ == live_before(i@, old(set)@),
{
    match &i.variant {
        Variant::AddrAssign => {
            i.opdt.insert_to_set(set);
            i.opm.insert_to_set(set);
        },
        Variant::Assign | Variant::Malloc | Variant::Negate | Variant::Cast => {
            i.opdt.remove_from_set(set);
            i.opm.insert_to_set(set);
        },
        Variant::Get | Variant::Load(_) => {
            i.opdt.remove_from_set(set);
        },
        Variant::Address | Variant::Dereference | Variant::Reference => {
            i.opdt.remove_from_set(set);
            i.opm.insert_to_set(set);
        },
        Variant::Put | Variant::PutS | Variant::Ret | Variant::Save | Variant::Free => {
            i.opdt.insert_to_set(set);
        },
        Variant::Plus | Variant::Minus | Variant::Times | Variant::Divide => {
            i.opdt.remove_from_set(set);
            i.opm.insert_to_set(set);
            i.opn.insert_to_set(set);
        },
        Variant::Equal(_)
        | Variant::NotEqual(_)
        | Variant::Less(_)
        | Variant::LessEqual(_)
        | Variant::Greater(_)
        | Variant::GreaterEqual(_) => {
            i.opm.insert_to_set(set);
            i.opn.insert_to_set(set);
        },
        Variant::Call(_, ops) => {
            i.opdt.remove_from_set(set);
            use_all(set, ops);
        },
        Variant::HeaderText(_)
        | Variant::HeaderStrings(_)
        | Variant::Label(_)
        | Variant::Jump(_)
        | Variant::Alloc(_)
        | Variant::SpillRegisters => {},
    }
}

/// Pairs each instruction of a block with the operands that are live after
/// it, walking the block backwards from the operands that are live at its
/// end; `set` ends as the operands that are live where the block starts.
pub fn for_codeblock(block: Vec<Instruction>, set: &mut LiveSet) -> (out: VecDeque<
    (Instruction, LiveSet),
>)
    ensures
        out@.len() == block@.len(),
        forall|k: int|
            0 <= k < out@.len() ==> (#[trigger] out@[k]).0@ == block@[k]@ && out@[k].1@
                == live_after(views(block@), old(set)@, k),
        final(set)@ == live_in(views(block@), old(set)@, 0),
{
    let ghost given = block@;
    let ghost all = views(block@);
    let ghost seed = set@;
    let mut block = block;
    let mut out: VecDeque<(Instruction, LiveSet)> = VecDeque::new();
    while block.len() > 0
        invariant
            all == views(given),
            block@.len() + out@.len() == all.len(),
            forall|k: int| 0 <= k < block@.len() ==> (#[trigger] block@[k])@ == all[k],
            forall|k: int|
                0 <= k < out@.len() ==> (#[trigger] out@[k]).0@ == all[k + block@.len()] && out@[k].1@
                    == live_after(all, seed, k + block@.len()),
            set@ == live_in(all, seed, block@.len() as int),
        decreases block@.len(),
    {
        let ghost rest = block@;
        let ghost done = out@;
        let i = block.pop().unwrap();
        let s = set.clone();
        step_back(&i, set);
        out.push_front((i, s));
        proof {
            assert forall|k: int| 0 <= k < out@.len() implies (#[trigger] out@[k]).0@ == all[k
                + block@.len()] && out@[k].1@ == live_after(all, seed, k + block@.len()) by {
                if k > 0 {
                    assert(out@[k] == done[k - 1]);
                }
            }
        }
    }
    proof {
        assert forall|k: int| 0 <= k < out@.len() implies (#[trigger] out@[k]).0@ == given[k]@
            && out@[k].1@ == live_after(views(given), seed, k) by {
            assert(views(given)[k] == given[k]@);
        }
    }
    out
}

} // verus!
