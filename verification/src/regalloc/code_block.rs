use super::live_set::LiveSet;
use crate::three_ac::instruction::InstructionView;
use crate::three_ac::instruction::VariantView;
use crate::three_ac::instructions::views;
use crate::three_ac::Instruction;
use crate::three_ac::Operand;
use crate::three_ac::Variant;
use std::collections::VecDeque;
use vstd::prelude::*;

verus! {

/// Whether an instruction ends the block that it stands in.
pub open spec fn ends_block(v: VariantView) -> bool {
    v is HeaderText || v is HeaderStrings || v is Ret || v is Jump || v is Call || v.is_compare()
}

/// Where the block that starts a stream stops, scanning from `n`: at the
/// end of the stream, at a label that is not the block's first instruction,
/// or at an instruction that ends its block.
pub open spec fn block_end(s: Seq<InstructionView>, n: int) -> int
    decreases s.len() - n,
{
    if n < 0 || n >= s.len() {
        n
    } else if (s[n].variant is Label && n > 0) || ends_block(s[n].variant) {
        n
    } else {
        block_end(s, n + 1)
    }
}

/// How many instructions of a stream its first block takes: a label at
/// which the block stops is left in the stream, an instruction that ends
/// the block is taken.
pub open spec fn block_taken(s: Seq<InstructionView>) -> int {
    let n = block_end(s, 0);
    if n >= s.len() {
        s.len() as int
    } else if s[n].variant is Label && n > 0 {
        n
    } else {
        n + 1
    }
}

/// The first block of a stream: the instructions it takes, with a spill of
/// all registers added at a label seam, and before a return or a jump.
pub open spec fn first_block(s: Seq<InstructionView>) -> Seq<InstructionView> {
    let n = block_end(s, 0);
    let spill = InstructionView::bare(VariantView::SpillRegisters);
    if n >= s.len() {
        s
    } else if s[n].variant is Label && n > 0 {
        s.subrange(0, n).push(spill)
    } else if s[n].variant is Ret || s[n].variant is Jump {
        s.subrange(0, n).push(spill).push(s[n])
    } else {
        s.subrange(0, n).push(s[n])
    }
}

/// A set with the operands of an instruction that have a home in memory.
pub open spec fn with_variables(set: Set<Operand>, i: InstructionView) -> Set<Operand> {
    let a = if i.opdt.variable() {
        set.insert(i.opdt)
    } else {
        set
    };
    let b = if i.opm.variable() {
        a.insert(i.opm)
    } else {
        a
    };
    if i.opn.variable() {
        b.insert(i.opn)
    } else {
        b
    }
}

/// The operands with a home in memory that the first `k` instructions name:
/// what is live where their block ends.
pub open spec fn seed_of(s: Seq<InstructionView>, k: int) -> Set<Operand>
    decreases k,
{
    if k <= 0 {
        Set::empty()
    } else {
        with_variables(seed_of(s, k - 1), s[k - 1])
    }
}

/// The end of a block lies within the stream, and at or after the place
/// that the scan starts from.
pub proof fn lemma_block_end(s: Seq<InstructionView>, n: int)
    requires
        0 <= n <= s.len(),
    ensures
        n <= block_end(s, n) <= s.len(),
    decreases s.len() - n,
{
    if n < s.len() && !((s[n].variant is Label && n > 0) || ends_block(s[n].variant)) {
        lemma_block_end(s, n + 1);
    }
}

/// A block takes at least one instruction of a stream that has one.
pub proof fn lemma_block_taken(s: Seq<InstructionView>)
    requires
        s.len() > 0,
    ensures
        1 <= block_taken(s) <= s.len(),
{
    lemma_block_end(s, 0);
}

/// Every operand live at the end of a block has a home in memory.
pub proof fn lemma_seed_variables(s: Seq<InstructionView>, k: int)
    ensures
        forall|op: Operand| #[trigger] seed_of(s, k).contains(op) ==> op.variable(),
    decreases k,
{
    if k > 0 {
        lemma_seed_variables(s, k - 1);
        assert forall|op: Operand| #[trigger] seed_of(s, k).contains(op) implies op.variable() by {
            if !seed_of(s, k - 1).contains(op) {
                assert(op == s[k - 1].opdt || op == s[k - 1].opm || op == s[k - 1].opn);
            }
        }
    } else {
        assert forall|op: Operand| #[trigger] seed_of(s, k).contains(op) implies op.variable() by {
            assert(!Set::<Operand>::empty().contains(op));
        }
    }
}

/// Takes the first block off a stream, with the operands that are live at
/// its end. `None` for an empty stream.
pub fn next_from_instructions(instructions: &mut VecDeque<Instruction>) -> (r: Option<
    (Vec<Instruction>, LiveSet),
>)
    ensures
        match r {
            None => old(instructions)@.len() == 0 && final(instructions)@.len() == 0,
            Some((block, live)) => {
                let s = views(old(instructions)@);
                &&& s.len() > 0
                &&& views(block@) == first_block(s)
                &&& views(final(instructions)@) == s.subrange(block_taken(s), s.len() as int)
                &&& live@ == seed_of(s, block_taken(s))
                &&& forall|op: Operand| #[trigger] live@.contains(op) ==> op.variable()
            },
        },
{
    let ghost s = views(instructions@);
    let total = instructions.len();
    let mut collection: Vec<Instruction> = Vec::new();
    let mut live_set = LiveSet::new();
    let mut taken: usize = 0;
    proof {
        assert(views(collection@) =~= s.subrange(0, 0));
        assert(views(instructions@) =~= s.subrange(0, s.len() as int));
        lemma_block_end(s, 0);
    }
    let mut closed = false;
    while !closed && instructions.len() > 0
        invariant
            s == views(old(instructions)@),
            0 <= taken <= s.len(),
            s.len() == total,
            !closed ==> taken + instructions@.len() == s.len(),
            !closed ==> views(instructions@) == s.subrange(taken as int, s.len() as int),
            !closed ==> views(collection@) == s.subrange(0, taken as int),
            !closed ==> block_end(s, 0) == block_end(s, taken as int),
            !closed ==> live_set@ == seed_of(s, taken as int),
            closed ==> s.len() > 0,
            closed ==> views(collection@) == first_block(s),
            closed ==> views(instructions@) == s.subrange(block_taken(s), s.len() as int),
            closed ==> live_set@ == seed_of(s, block_taken(s)),
        decreases
                if closed {
                    0
                } else {
                    instructions@.len() + 1
                },
    {
        let ghost before = instructions@;
        let ghost had = collection@;
        let i = instructions.pop_front().unwrap();
        proof {
            assert(i@ == s[taken as int]) by {
                assert(views(before)[0] == before[0]@);
            }
            lemma_block_end(s, taken as int);
        }
        let is_label = match &i.variant {
            Variant::Label(_) => true,
            _ => false,
        };
        if is_label && collection.len() > 0 {
            instructions.push_front(i);
            collection.push(Instruction::spill_registers());
            proof {
                assert(instructions@ =~= before);
                assert(views(collection@) =~= s.subrange(0, taken as int).push(
                    InstructionView::bare(VariantView::SpillRegisters),
                )) by {
                    assert forall|k: int| 0 <= k < had.len() implies views(collection@)[k]
                        == s.subrange(0, taken as int)[k] by {
                        assert(views(had)[k] == had[k]@);
                    }
                }
            }
            closed = true;
        } else {
            i.add_operands_to_set(&mut live_set);
            let ends = match &i.variant {
                Variant::HeaderText(_)
                | Variant::HeaderStrings(_)
                | Variant::Ret
                | Variant::Equal(_)
                | Variant::NotEqual(_)
                | Variant::Less(_)
                | Variant::LessEqual(_)
                | Variant::Greater(_)
                | Variant::GreaterEqual(_)
                | Variant::Jump(_)
                | Variant::Call(..) => true,
                _ => false,
            };
            let spills = match &i.variant {
                Variant::Ret | Variant::Jump(_) => true,
                _ => false,
            };
            if spills {
                collection.push(Instruction::spill_registers());
            }
            let ghost mid = collection@;
            collection.push(i);
            proof {
                assert(views(instructions@) =~= s.subrange(taken + 1, s.len() as int)) by {
                    assert forall|k: int| 0 <= k < instructions@.len() implies views(
                        instructions@,
                    )[k] == s.subrange(taken + 1, s.len() as int)[k] by {
                        assert(views(before)[k + 1] == before[k + 1]@);
                    }
                }
                let head = s.subrange(0, taken as int);
                let spill = InstructionView::bare(VariantView::SpillRegisters);
                assert forall|k: int| 0 <= k < had.len() implies (#[trigger] collection@[k])@
                    == head[k] by {
                    assert(views(had)[k] == had[k]@);
                }
                if spills {
                    assert(views(collection@) =~= head.push(spill).push(s[taken as int]));
                } else {
                    assert(views(collection@) =~= head.push(s[taken as int]));
                    assert(head.push(s[taken as int]) =~= s.subrange(0, taken + 1));
                }
            }
            taken += 1;
            if ends {
                closed = true;
            }
        }
    }
    proof {
        lemma_seed_variables(s, block_taken(s));
        lemma_seed_variables(s, taken as int);
        if !closed {
            assert(s.subrange(0, taken as int) =~= s);
        }
    }
    if collection.len() == 0 {
        return None;
    }
    Some((collection, live_set))
}

impl Instruction {
    /// Adds the operands of the instruction that have a home in memory.
    pub fn add_operands_to_set(&self, set: &mut LiveSet)
        ensures
            final(set)@ == with_variables(old(set)@, self@),
    {
        self.opdt.insert_to_set_if_a_var(set);
        self.opm.insert_to_set_if_a_var(set);
        self.opn.insert_to_set_if_a_var(set);
    }
}

} // verus!
