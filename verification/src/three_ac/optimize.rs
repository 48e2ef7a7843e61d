use super::instruction::Instruction;
use super::instruction::InstructionView;
use super::instruction::Variant;
use super::instruction::VariantView;
use super::instructions::views;
use super::instructions::Instructions;
use super::instructions::InstructionsView;
use super::operand;
use std::collections::VecDeque;
use vstd::prelude::*;

verus! {

/// Whether `next` copies the temporary that `curr` writes: then `curr` can
/// write the copy's destination itself.
pub open spec fn absorbs(curr: InstructionView, next: InstructionView) -> bool {
    next.variant is Assign && next.opm == curr.opdt && (next.opm.variant is Temp
        || next.opm.variant is TempFloat)
}

/// Whether `curr` jumps to the label that `next` marks.
pub open spec fn collapses(curr: InstructionView, next: InstructionView) -> bool {
    next.variant matches VariantView::Label(l) && curr.variant == VariantView::Jump(l)
}

/// The instruction `curr` writing the destination of a copy.
pub open spec fn retargeted(curr: InstructionView, next: InstructionView) -> InstructionView {
    InstructionView { opdt: next.opdt, ..curr }
}

/// One forward pass over the stream from `i` on, with `curr` held back: a
/// copy of the temporary that `curr` writes is dropped and `curr` writes
/// its destination; a jump to the label that follows it is dropped.
pub open spec fn scan(curr: InstructionView, s: Seq<InstructionView>, i: int) -> Seq<
    InstructionView,
>
    decreases s.len() - i,
{
    if i < 0 || i >= s.len() {
        seq![curr]
    } else if absorbs(curr, s[i]) {
        scan(retargeted(curr, s[i]), s, i + 1)
    } else if collapses(curr, s[i]) {
        scan(s[i], s, i + 1)
    } else {
        seq![curr] + scan(s[i], s, i + 1)
    }
}

/// The stream after the peephole pass.
pub open spec fn peephole(s: Seq<InstructionView>) -> Seq<InstructionView> {
    if s.len() == 0 {
        Seq::empty()
    } else {
        scan(s[0], s, 1)
    }
}

/// No instruction of the stream copies the temporary that the instruction
/// before it writes.
pub open spec fn no_copy_left(s: Seq<InstructionView>) -> bool {
    forall|k: int| 0 <= k < s.len() - 1 ==> !absorbs(#[trigger] s[k], s[k + 1])
}

/// No jump of the stream goes to a label that follows it at once.
pub open spec fn no_jump_to_next(s: Seq<InstructionView>) -> bool {
    forall|k: int| 0 <= k < s.len() - 1 ==> !collapses(#[trigger] s[k], s[k + 1])
}

/// What a pass leaves starts with what was held back: after a copy into
/// it, or after the label that took the place of a jump.
proof fn lemma_scan_head(curr: InstructionView, s: Seq<InstructionView>, i: int)
    requires
        0 <= i,
    ensures
        scan(curr, s, i).len() >= 1,
        scan(curr, s, i)[0].variant is Assign ==> curr.variant is Assign && scan(curr, s, i)[0].opm
            == curr.opm,
    decreases s.len() - i,
{
    if i >= s.len() {
    } else if absorbs(curr, s[i]) {
        lemma_scan_head(retargeted(curr, s[i]), s, i + 1);
    } else if collapses(curr, s[i]) {
        lemma_scan_head(s[i], s, i + 1);
    } else {
        lemma_scan_head(s[i], s, i + 1);
    }
}

/// A pass leaves no copy of a temporary behind the instruction that writes
/// it.
proof fn lemma_scan_no_copy(curr: InstructionView, s: Seq<InstructionView>, i: int)
    requires
        0 <= i,
    ensures
        no_copy_left(scan(curr, s, i)),
    decreases s.len() - i,
{
    if i >= s.len() {
    } else if absorbs(curr, s[i]) {
        lemma_scan_no_copy(retargeted(curr, s[i]), s, i + 1);
    } else if collapses(curr, s[i]) {
        lemma_scan_no_copy(s[i], s, i + 1);
    } else {
        lemma_scan_no_copy(s[i], s, i + 1);
        lemma_scan_head(s[i], s, i + 1);
        let rest = scan(s[i], s, i + 1);
        let o = scan(curr, s, i);
        assert(o =~= seq![curr] + rest);
        assert forall|k: int| 0 <= k < o.len() - 1 implies !absorbs(#[trigger] o[k], o[k + 1]) by {
            if k == 0 {
                assert(o[1] == rest[0]);
            } else {
                assert(o[k] == rest[k - 1]);
                assert(o[k + 1] == rest[k]);
            }
        }
    }
}

/// A pass over a stream in which nothing is left to drop changes nothing.
proof fn lemma_scan_stable(s: Seq<InstructionView>, i: int)
    requires
        1 <= i <= s.len(),
        no_copy_left(s),
        no_jump_to_next(s),
    ensures
        scan(s[i - 1], s, i) == s.subrange(i - 1, s.len() as int),
    decreases s.len() - i,
{
    if i < s.len() {
        assert(!absorbs(s[i - 1], s[i]));
        assert(!collapses(s[i - 1], s[i]));
        lemma_scan_stable(s, i + 1);
        assert(seq![s[i - 1]] + s.subrange(i, s.len() as int) =~= s.subrange(
            i - 1,
            s.len() as int,
        ));
    } else {
        assert(seq![s[i - 1]] =~= s.subrange(i - 1, s.len() as int));
    }
}

/// A second peephole pass changes nothing, unless the first left a jump to
/// the label that follows it.
pub proof fn lemma_peephole_idempotent(s: Seq<InstructionView>)
    requires
        no_jump_to_next(peephole(s)),
    ensures
        peephole(peephole(s)) == peephole(s),
{
    if s.len() > 0 {
        lemma_scan_no_copy(s[0], s, 1);
        lemma_scan_head(s[0], s, 1);
        let o = peephole(s);
        lemma_scan_stable(o, 1);
        assert(o.subrange(0, o.len() as int) =~= o);
    }
}

/// Where the first pass leaves a jump to the label that follows it, a
/// second pass drops the jump: the stream gets shorter.
pub proof fn lemma_peephole_second_pass(s: Seq<InstructionView>)
    requires
        !no_jump_to_next(peephole(s)),
    ensures
        peephole(peephole(s)).len() < peephole(s).len(),
{
    let o = peephole(s);
    if s.len() > 0 {
        lemma_scan_no_copy(s[0], s, 1);
    }
    let k = choose|k: int| 0 <= k < o.len() - 1 && collapses(#[trigger] o[k], o[k + 1]);
    lemma_scan_drops(o, 1, k);
}

/// A pass leaves at most as many instructions as it had: the one held back
/// and those from `i` on.
proof fn lemma_scan_shorter(curr: InstructionView, s: Seq<InstructionView>, i: int)
    requires
        0 <= i <= s.len(),
    ensures
        scan(curr, s, i).len() <= 1 + s.len() - i,
    decreases s.len() - i,
{
    if i >= s.len() {
    } else if absorbs(curr, s[i]) {
        lemma_scan_shorter(retargeted(curr, s[i]), s, i + 1);
    } else if collapses(curr, s[i]) {
        lemma_scan_shorter(s[i], s, i + 1);
    } else {
        lemma_scan_shorter(s[i], s, i + 1);
    }
}

/// A pass over a stream without copies left, with a jump at `k` to the
/// label at `k + 1`, leaves fewer instructions than it had.
proof fn lemma_scan_drops(s: Seq<InstructionView>, i: int, k: int)
    requires
        1 <= i <= k + 1 < s.len(),
        no_copy_left(s),
        collapses(s[k], s[k + 1]),
    ensures
        scan(s[i - 1], s, i).len() < 1 + s.len() - i,
    decreases s.len() - i,
{
    assert(!absorbs(s[i - 1], s[i]));
    if collapses(s[i - 1], s[i]) {
        lemma_scan_shorter(s[i], s, i + 1);
    } else {
        lemma_scan_drops(s, i + 1, k);
    }
}

/// A pass keeps the last instruction of a stream where that is neither a
/// copy nor a label.
pub proof fn lemma_scan_last(curr: InstructionView, s: Seq<InstructionView>, i: int)
    requires
        0 <= i <= s.len(),
        s.len() > 0,
        !(s.last().variant is Assign),
        !(s.last().variant is Label),
    ensures
        scan(curr, s, i).len() > 0,
        scan(curr, s, i).last() == if i == s.len() {
            curr
        } else {
            s.last()
        },
    decreases s.len() - i,
{
    if i < s.len() {
        if absorbs(curr, s[i]) {
            lemma_scan_last(retargeted(curr, s[i]), s, i + 1);
        } else if collapses(curr, s[i]) {
            lemma_scan_last(s[i], s, i + 1);
        } else {
            lemma_scan_last(s[i], s, i + 1);
        }
    }
}

fn copies_from(next: &Instruction, curr: &Instruction) -> (b: bool)
    ensures
        b == absorbs(curr@, next@),
{
    let is_assign = match &next.variant {
        Variant::Assign => true,
        _ => false,
    };
    let is_temp = match next.opm.variant {
        operand::Variant::Temp(_) | operand::Variant::TempFloat(_) => true,
        _ => false,
    };
    is_assign && next.opm == curr.opdt && is_temp
}

fn jumps_to(curr: &Instruction, next: &Instruction) -> (b: bool)
    ensures
        b == collapses(curr@, next@),
{
    match (&next.variant, &curr.variant) {
        (Variant::Label(l), Variant::Jump(target)) => *l == *target,
        _ => false,
    }
}

impl Instructions {
    /// Runs the peephole pass; the stream keeps no result operand.
    pub fn optimize(self) -> (r: Instructions)
        ensures
            r@ == (InstructionsView { instructions: peephole(self@.instructions), tmp: None }),
    {
        self.peephole()
    }

    fn peephole(self) -> (r: Instructions)
        ensures
            r@ == (InstructionsView { instructions: peephole(self@.instructions), tmp: None }),
    {
        let ghost s = views(self.instructions@);
        let mut list = self.instructions;
        let mut instructions: VecDeque<Instruction> = VecDeque::new();
        let total = list.len();
        let mut curr = match list.pop_front() {
            Some(i) => i,
            None => {
                assert(views(instructions@) =~= Seq::<InstructionView>::empty());
                return Instructions { instructions, tmp: None };
            },
        };
        let mut i: usize = 1;
        assert(views(instructions@) + scan(curr@, s, 1) =~= scan(s[0], s, 1));
        while list.len() > 0
            invariant
                s.len() == total,
                1 <= i <= s.len(),
                i + list@.len() == s.len(),
                forall|k: int| 0 <= k < list@.len() ==> (#[trigger] list@[k])@ == s[k + i],
                peephole(s) == views(instructions@) + scan(curr@, s, i as int),
            decreases list@.len(),
        {
            let ghost rest = list@;
            let ghost done = views(instructions@);
            let next = list.pop_front().unwrap();
            assert(next@ == s[i as int]);
            assert forall|k: int| 0 <= k < list@.len() implies (#[trigger] list@[k])@ == s[k + i
                + 1] by {
                assert(list@[k] == rest[k + 1]);
            }
            if copies_from(&next, &curr) {
                curr.opdt = next.opdt;
            } else if jumps_to(&curr, &next) {
                curr = next;
            } else {
                let ghost held = curr@;
                instructions.push_back(curr);
                curr = next;
                assert(views(instructions@) =~= done.push(held));
                assert(done.push(held) + scan(curr@, s, i + 1) =~= done + (seq![held] + scan(
                    curr@,
                    s,
                    i + 1,
                )));
            }
            i += 1;
        }
        let ghost done = views(instructions@);
        let ghost last = curr@;
        instructions.push_back(curr);
        assert(views(instructions@) =~= done + seq![last]);
        Instructions { instructions, tmp: None }
    }
}

} // verus!
