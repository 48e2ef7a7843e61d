use super::code_block::block_taken;
use super::code_block::first_block;
use super::code_block::lemma_block_taken;
use super::code_block::next_from_instructions;
use super::code_block::seed_of;
use super::liveness_analysis::for_codeblock;
use super::instruction::lemma_to_code_clean;
use super::instruction::lemma_to_code_keeps;
use super::liveness_analysis::live_after;
use super::reg_table::RegTable;
use super::reg_table::RegTableView;
use crate::error::outcome;
use crate::error::Error;
use crate::error::ErrorKind;
use crate::three_ac::instruction::InstructionView;
use crate::three_ac::instructions::views;
use super::live_set::LiveSet;
use crate::three_ac::Instruction;
use crate::three_ac::Instructions;
use std::collections::VecDeque;
use crate::three_ac::Operand;
use vstd::prelude::*;

verus! {

/// The register file and the assembly after the instructions of a block
/// from the `k`-th on, each written with the operands that are live after
/// it. The first instruction that fails stops the block.
pub open spec fn emit_block(
    block: Seq<InstructionView>,
    seed: Set<Operand>,
    table: RegTableView,
    out: Seq<char>,
    k: int,
) -> (RegTableView, Result<Seq<char>, ErrorKind>)
    decreases block.len() - k,
{
    if k < 0 || k >= block.len() {
        (table, Ok(out))
    } else {
        let (t, r) = block[k].to_code(live_after(block, seed, k), table);
        match r {
            Ok(code) => emit_block(block, seed, t, out + code, k + 1),
            Err(e) => (t, Err(e)),
        }
    }
}

/// The assembly of a stream: block after block, the register file carried
/// from each block to the next.
pub open spec fn emit_stream(s: Seq<InstructionView>, table: RegTableView, out: Seq<char>) -> Result<
    Seq<char>,
    ErrorKind,
>
    decreases s.len(),
{
    if s.len() == 0 {
        Ok(out)
    } else {
        proof {
            lemma_block_taken(s);
        }
        let taken = block_taken(s);
        match emit_block(first_block(s), seed_of(s, taken), table, out, 0) {
            (t, Ok(o)) => emit_stream(s.subrange(taken, s.len() as int), t, o),
            (_, Err(e)) => Err(e),
        }
    }
}

/// The assembly of a program for a register count: an allocator error
/// below 8 registers.
pub open spec fn assembly(s: Seq<InstructionView>, reg_count: u32) -> Result<Seq<char>, ErrorKind> {
    if reg_count < 8 {
        Err(ErrorKind::RegAlloc)
    } else {
        emit_stream(s, RegTableView::empty(reg_count), Seq::empty())
    }
}

/// Whether a block ends with a spill of all registers: as its last
/// instruction, or before the return or the jump that is its last.
pub open spec fn spilled_at_end(block: Seq<InstructionView>) -> bool {
    block.len() > 0 && (block.last().variant is SpillRegisters || (block.len() >= 2 && block[block.len()
        - 2].variant is SpillRegisters && (block.last().variant is Ret
        || block.last().variant is Jump)))
}

/// After the spill at the end of a block, no register is newer than
/// memory, whatever the registers held before an instruction at or before
/// the spill.
pub proof fn lemma_block_end_clean(
    block: Seq<InstructionView>,
    seed: Set<Operand>,
    table: RegTableView,
    out: Seq<char>,
    k: int,
)
    requires
        spilled_at_end(block),
        0 <= k < block.len(),
        k < block.len() - 1 || block.last().variant is SpillRegisters,
    ensures
        emit_block(block, seed, table, out, k).1 is Ok ==> emit_block(
            block,
            seed,
            table,
            out,
            k,
        ).0.clean(),
    decreases block.len() - k,
{
    let live = live_after(block, seed, k);
    let (t, r) = block[k].to_code(live, table);
    assert(emit_block(block, seed, table, out, k) == match r {
        Ok(code) => emit_block(block, seed, t, out + code, k + 1),
        Err(e) => (t, Err(e)),
    });
    if r is Ok {
        let next = out + r->Ok_0;
        if k == block.len() - 1 {
            lemma_to_code_clean(block[k], live, table);
            assert(emit_block(block, seed, t, next, k + 1) == (t, Ok::<Seq<char>, ErrorKind>(next)));
        } else if k == block.len() - 2 && !(block.last().variant is SpillRegisters) {
            lemma_to_code_clean(block[k], live, table);
            let after = live_after(block, seed, k + 1);
            lemma_to_code_keeps(block[k + 1], after, t);
            let (t2, r2) = block[k + 1].to_code(after, t);
            assert(emit_block(block, seed, t, next, k + 1) == emit_block(
                block,
                seed,
                t2,
                next + r2->Ok_0,
                k + 2,
            ));
            assert(emit_block(block, seed, t2, next + r2->Ok_0, k + 2) == (
                t2,
                Ok::<Seq<char>, ErrorKind>(next + r2->Ok_0),
            ));
        } else {
            lemma_block_end_clean(block, seed, t, next, k + 1);
        }
    }
}

/// The first block of a stream ends with a spill of all registers where
/// it stops at a label, a return or a jump.
pub proof fn lemma_first_block_spilled(s: Seq<InstructionView>)
    requires
        s.len() > 0,
        ({
            let n = crate::regalloc::code_block::block_end(s, 0);
            n < s.len() && ((s[n].variant is Label && n > 0) || s[n].variant is Ret
                || s[n].variant is Jump)
        }),
    ensures
        spilled_at_end(first_block(s)),
{
    crate::regalloc::code_block::lemma_block_end(s, 0);
}

/// Writes the assembly of a block whose instructions come with the
/// operands that are live after each.
fn emit_analyzed(
    analyzed: VecDeque<(Instruction, LiveSet)>,
    reg_table: &mut RegTable,
    output: &mut String,
    Ghost(shown): Ghost<Seq<InstructionView>>,
    Ghost(seed): Ghost<Set<Operand>>,
) -> (r: Result<(), Error>)
    requires
        old(reg_table).wf(),
        analyzed@.len() == shown.len(),
        forall|j: int|
            0 <= j < analyzed@.len() ==> (#[trigger] analyzed@[j]).0@ == shown[j] && analyzed@[j].1@
                == live_after(shown, seed, j),
    ensures
        final(reg_table).wf(),
        match r {
            Ok(()) => emit_block(shown, seed, old(reg_table)@, old(output)@, 0) == (
                final(reg_table)@,
                Ok::<Seq<char>, ErrorKind>(final(output)@),
            ),
            Err(e) => emit_block(shown, seed, old(reg_table)@, old(output)@, 0).1 == Err::<
                Seq<char>,
                ErrorKind,
            >(e.kind()),
        },
{
    let mut analyzed = analyzed;
    let mut k: usize = 0;
    let n = analyzed.len();
    while k < n
        invariant
            reg_table.wf(),
            k <= n,
            n == shown.len(),
            analyzed@.len() == n - k,
            forall|j: int|
                0 <= j < analyzed@.len() ==> (#[trigger] analyzed@[j]).0@ == shown[j + k]
                    && analyzed@[j].1@ == live_after(shown, seed, j + k),
            emit_block(shown, seed, old(reg_table)@, old(output)@, 0) == emit_block(
                shown,
                seed,
                reg_table@,
                output@,
                k as int,
            ),
        decreases n - k,
    {
        let ghost rest = analyzed@;
        let ghost table = reg_table@;
        let ghost out = output@;
        let (i, l) = analyzed.pop_front().unwrap();
        assert(i@ == shown[k as int] && l@ == live_after(shown, seed, k as int)) by {
            assert(rest[0].0@ == shown[0 + k]);
        }
        let step = i.to_code(&l, reg_table);
        assert(shown[k as int].to_code(live_after(shown, seed, k as int), table) == (
            reg_table@,
            outcome(step),
        ));
        match step {
            Ok(code) => {
                output.append(code.as_str());
            },
            Err(e) => {
                return Err(e);
            },
        }
        proof {
            assert forall|j: int| 0 <= j < analyzed@.len() implies (#[trigger] analyzed@[j]).0@
                == shown[j + k + 1] && analyzed@[j].1@ == live_after(shown, seed, j + k + 1) by {
                assert(analyzed@[j] == rest[j + 1]);
            }
        }
        k += 1;
    }
    Ok(())
}

/// Allocates registers for a stream of instructions and writes its
/// assembly.
pub fn from_instructions(instructions: Instructions, reg_count: u32) -> (r: Result<String, Error>)
    ensures
        outcome(r) == assembly(instructions@.instructions, reg_count),
{
    let mut instrs = instructions.instructions;
    let mut output = String::new();
    let mut reg_table = match RegTable::new(reg_count) {
        Ok(t) => t,
        Err(e) => {
            return Err(e);
        },
    };
    let ghost all = views(instrs@);
    loop
        invariant
            reg_table.wf(),
            reg_count >= 8,
            all == instructions@.instructions,
            assembly(all, reg_count) == emit_stream(views(instrs@), reg_table@, output@),
        decreases instrs@.len(),
    {
        let ghost s = views(instrs@);
        let ghost table = reg_table@;
        let ghost out = output@;
        match next_from_instructions(&mut instrs) {
            None => {
                return Ok(output);
            },
            Some((block, live)) => {
                let ghost seed = live@;
                let mut live_set = live;
                proof {
                    lemma_block_taken(s);
                }
                let ghost shown = views(block@);
                let analyzed = for_codeblock(block, &mut live_set);
                assert forall|j: int| 0 <= j < analyzed@.len() implies (#[trigger] analyzed@[j]).0@
                    == shown[j] && analyzed@[j].1@ == live_after(shown, seed, j) by {
                    assert(views(block@)[j] == block@[j]@);
                }
                match emit_analyzed(analyzed, &mut reg_table, &mut output, Ghost(shown), Ghost(seed)) {
                    Ok(()) => {},
                    Err(e) => {
                        return Err(e);
                    },
                }
            },
        }
    }
}

} // verus!
