use super::live_set::LiveSet;
use super::reg_table::RegTable;
use super::reg_table::RegTableView;
use super::reg_table::Register;
use crate::error::Error;
use crate::error::ErrorKind;
use crate::text::dec_int;
use crate::text::dec_nat;
use crate::text::push_dec;
use crate::text::push_int;
use crate::three_ac::instruction::InstructionView;
use crate::three_ac::instruction::VariantView;
use crate::three_ac::operand;
use crate::three_ac::Bank;
use crate::three_ac::Instruction;
use crate::three_ac::Label;
use crate::three_ac::Operand;
use crate::three_ac::Variant;
use vstd::prelude::*;

verus! {

/// A line with one operand.
pub open spec fn op1(mnemonic: Seq<char>, a: Seq<char>) -> Seq<char> {
    mnemonic + " "@ + a + "\n"@
}

/// A line with two operands.
pub open spec fn op2(mnemonic: Seq<char>, a: Seq<char>, b: Seq<char>) -> Seq<char> {
    mnemonic + " "@ + a + ", "@ + b + "\n"@
}

/// A line with three operands.
pub open spec fn op3(mnemonic: Seq<char>, a: Seq<char>, b: Seq<char>, c: Seq<char>) -> Seq<char> {
    mnemonic + " "@ + a + ", "@ + b + ", "@ + c + "\n"@
}

/// A line that moves a register to or from memory at an offset from a base.
pub open spec fn mem(mnemonic: Seq<char>, a: Seq<char>, offset: Seq<char>, base: Seq<char>) -> Seq<
    char,
> {
    mnemonic + " "@ + a + ", "@ + offset + "("@ + base + ")\n"@
}

fn push_op1(code: &mut String, mnemonic: &str, a: &str)
    ensures
        final(code)@ == old(code)@ + op1(mnemonic@, a@),
{
    code.append(mnemonic);
    code.append(" ");
    code.append(a);
    code.append("\n");
    assert(final(code)@ =~= old(code)@ + op1(mnemonic@, a@));
}

fn push_op2(code: &mut String, mnemonic: &str, a: &str, b: &str)
    ensures
        final(code)@ == old(code)@ + op2(mnemonic@, a@, b@),
{
    code.append(mnemonic);
    code.append(" ");
    code.append(a);
    code.append(", ");
    code.append(b);
    code.append("\n");
    assert(final(code)@ =~= old(code)@ + op2(mnemonic@, a@, b@));
}

fn push_op3(code: &mut String, mnemonic: &str, a: &str, b: &str, c: &str)
    ensures
        final(code)@ == old(code)@ + op3(mnemonic@, a@, b@, c@),
{
    code.append(mnemonic);
    code.append(" ");
    code.append(a);
    code.append(", ");
    code.append(b);
    code.append(", ");
    code.append(c);
    code.append("\n");
    assert(final(code)@ =~= old(code)@ + op3(mnemonic@, a@, b@, c@));
}

fn push_mem(code: &mut String, mnemonic: &str, a: &str, offset: &str, base: &str)
    ensures
        final(code)@ == old(code)@ + mem(mnemonic@, a@, offset@, base@),
{
    code.append(mnemonic);
    code.append(" ");
    code.append(a);
    code.append(", ");
    code.append(offset);
    code.append("(");
    code.append(base);
    code.append(")\n");
    assert(final(code)@ =~= old(code)@ + mem(mnemonic@, a@, offset@, base@));
}

/// The register file and the assembly written so far.
pub struct Emit {
    pub table: RegTableView,
    pub code: Seq<char>,
}

impl Emit {
    /// The state after `text` was written.
    pub open spec fn emit(self, text: Seq<char>) -> Emit {
        Emit { code: self.code + text, ..self }
    }

    /// The state after an operand was brought into a register, and the register.
    pub open spec fn ensure(self, op: Operand, live: Set<Operand>) -> (Emit, Register) {
        let (table, r, text) = self.table.ensure(op, live);
        (Emit { table, code: self.code + text }, r)
    }

    /// The state after a register was claimed for an operand, and the register.
    pub open spec fn allocate(self, op: Operand, live: Set<Operand>) -> (Emit, Register) {
        let (table, r, text) = self.table.allocate(op, live);
        (Emit { table, code: self.code + text }, r)
    }

    /// Frees the register of a source that is dead after the instruction.
    pub open spec fn release(self, op: Operand, r: Register, live: Set<Operand>) -> Emit {
        if live.contains(op) {
            self
        } else {
            let (table, text) = self.table.free(r, live);
            Emit { table, code: self.code + text }
        }
    }

    /// The state after a register was written.
    pub open spec fn mark_dirty(self, r: Register) -> Emit {
        let (table, text) = self.table.mark_dirty(r);
        Emit { table, code: self.code + text }
    }

    /// The state after a spill of all registers.
    pub open spec fn spill(self) -> Emit {
        let (table, text) = self.table.spill_registers();
        Emit { table, code: self.code + text }
    }

    /// One source is read, then a destination is written by `mnemonic`.
    pub open spec fn unary(self, mnemonic: Seq<char>, i: InstructionView, live: Set<Operand>) -> Emit {
        let (e, opm) = self.ensure(i.opm, live);
        let e = e.release(i.opm, opm, live);
        let (e, opd) = e.allocate(i.opdt, live);
        e.emit(op2(mnemonic, opd.text(), opm.text())).mark_dirty(opd)
    }

    /// One source is read, then a destination is loaded through it.
    pub open spec fn through(self, mnemonic: Seq<char>, i: InstructionView, live: Set<Operand>) -> Emit {
        let (e, opm) = self.ensure(i.opm, live);
        let e = e.release(i.opm, opm, live);
        let (e, opd) = e.allocate(i.opdt, live);
        e.emit(mem(mnemonic, opd.text(), "0"@, opm.text())).mark_dirty(opd)
    }

    /// The target operand is read and handed to `mnemonic`.
    pub open spec fn consume(self, mnemonic: Seq<char>, i: InstructionView, live: Set<Operand>) -> Emit {
        let (e, opt) = self.ensure(i.opdt, live);
        let e = e.release(i.opdt, opt, live);
        e.emit(op1(mnemonic, opt.text()))
    }

    /// A destination is written by `mnemonic` from `source`.
    pub open spec fn produce(
        self,
        mnemonic: Seq<char>,
        source: Option<Seq<char>>,
        i: InstructionView,
        live: Set<Operand>,
    ) -> Emit {
        let (e, opd) = self.allocate(i.opdt, live);
        e.emit(
            match source {
                Some(s) => op2(mnemonic, opd.text(), s),
                None => op1(mnemonic, opd.text()),
            },
        ).mark_dirty(opd)
    }

    /// Both sources are read, and freed where they are dead.
    pub open spec fn sources(self, i: InstructionView, live: Set<Operand>) -> (
        Emit,
        Register,
        Register,
    ) {
        let (e, opm) = self.ensure(i.opm, live);
        let (e, opn) = e.ensure(i.opn, live);
        let e = e.release(i.opm, opm, live);
        let e = e.release(i.opn, opn, live);
        (e, opm, opn)
    }

    /// The first `k` arguments of a call are read and stored above the
    /// return slot, at 8, 12 and so on from the stack pointer.
    pub open spec fn arguments(self, args: Seq<Operand>, live: Set<Operand>, k: int) -> Emit
        decreases k,
    {
        if k <= 0 {
            self
        } else {
            let e = self.arguments(args, live, k - 1);
            let arg = args[k - 1];
            let (e, r) = e.ensure(arg, live);
            let e = e.release(arg, r, live);
            e.emit(
                mem(
                    match arg.otype {
                        operand::Type::T => "SW"@,
                        operand::Type::F => "FSW"@,
                    },
                    r.text(),
                    dec_nat((8 + 4 * (k - 1)) as nat),
                    "sp"@,
                ),
            )
        }
    }
}

/// The arithmetic mnemonic of an instruction in a bank.
pub open spec fn arith(v: VariantView, set: Bank) -> Seq<char> {
    match (v, set) {
        (VariantView::Plus, Bank::T) => "ADD"@,
        (VariantView::Minus, Bank::T) => "SUB"@,
        (VariantView::Times, Bank::T) => "MUL"@,
        (VariantView::Divide, Bank::T) => "DIV"@,
        (VariantView::Plus, Bank::F) => "FADD.S"@,
        (VariantView::Minus, Bank::F) => "FSUB.S"@,
        (VariantView::Times, Bank::F) => "FMUL.S"@,
        _ => "FDIV.S"@,
    }
}

/// The branch that an integer comparison takes when it fails: on the
/// negation of the condition.
pub open spec fn branch(v: VariantView) -> Seq<char> {
    match v {
        VariantView::Equal(_) => "BNE"@,
        VariantView::NotEqual(_) => "BEQ"@,
        VariantView::Less(_) => "BGE"@,
        VariantView::LessEqual(_) => "BGT"@,
        VariantView::Greater(_) => "BLE"@,
        _ => "BLT"@,
    }
}

/// The comparison that a float condition is computed by.
pub open spec fn float_compare(v: VariantView) -> Seq<char> {
    match v {
        VariantView::Equal(_) => "FEQ.S"@,
        VariantView::NotEqual(_) => "FEQ.S"@,
        VariantView::Less(_) => "FLT.S"@,
        VariantView::LessEqual(_) => "FLE.S"@,
        VariantView::Greater(_) => "FLE.S"@,
        _ => "FLT.S"@,
    }
}

/// The branch on the result of a float comparison, taken when the
/// condition fails.
pub open spec fn float_branch(v: VariantView) -> Seq<char> {
    match v {
        VariantView::Equal(_) => "BEQ"@,
        VariantView::NotEqual(_) => "BNE"@,
        VariantView::Less(_) => "BEQ"@,
        VariantView::LessEqual(_) => "BEQ"@,
        VariantView::Greater(_) => "BNE"@,
        _ => "BNE"@,
    }
}

/// The prologue of a function at its head; any other label stands alone.
pub open spec fn label_text(l: Label) -> Seq<char> {
    match l {
        Label::FunctionHead(_) => l.text() + ":\nADDI sp, sp, -4\nSW fp, 0(sp)\nMV fp, sp\n"@,
        _ => l.text() + ":\n"@,
    }
}

impl InstructionView {
    /// The register file and the assembly after this instruction, from the
    /// register file before it and the operands that are live after it.
    /// Taking the address of anything but a slot of the frame fails, and
    /// changes nothing.
    #[verifier::opaque]
    pub open spec fn to_code(self, live: Set<Operand>, table: RegTableView) -> (
        RegTableView,
        Result<Seq<char>, ErrorKind>,
    ) {
        let start = Emit { table, code: Seq::empty() };
        let done = match self.variant {
            VariantView::HeaderText(l) => start.emit(
                ".section .text\nMV fp, sp\nJR "@ + l.text() + "\nHALT\n"@,
            ),
            VariantView::HeaderStrings(s) => start.emit(".section .strings\n"@ + s),
            VariantView::AddrAssign => {
                let (e, opd) = start.ensure(self.opdt, live);
                let (e, opm) = e.ensure(self.opm, live);
                let e = e.release(self.opdt, opd, live);
                let e = e.release(self.opm, opm, live);
                e.emit(
                    mem(
                        match self.set {
                            Bank::T => "SW"@,
                            Bank::F => "FSW"@,
                        },
                        opm.text(),
                        "0"@,
                        opd.text(),
                    ),
                )
            },
            VariantView::Assign => start.unary(
                match self.set {
                    Bank::T => "MV"@,
                    Bank::F => "FMV.S"@,
                },
                self,
                live,
            ),
            VariantView::Free => start.consume("FREE"@, self, live),
            VariantView::Get => start.produce(
                match self.set {
                    Bank::T => "GETI"@,
                    Bank::F => "GETF"@,
                },
                None,
                self,
                live,
            ),
            VariantView::Malloc => start.unary("MALLOC"@, self, live),
            VariantView::Put => start.consume(
                match self.set {
                    Bank::T => "PUTI"@,
                    Bank::F => "PUTF"@,
                },
                self,
                live,
            ),
            VariantView::PutS => start.consume("PUTS"@, self, live),
            VariantView::Ret => start.emit("MV sp, fp\nLW fp, 0(fp)\nADDI sp, sp, 4\nRET\n"@),
            VariantView::Save => {
                let (e, opt) = start.ensure(self.opdt, live);
                let e = e.release(self.opdt, opt, live);
                e.emit(
                    mem(
                        match self.set {
                            Bank::T => "SW"@,
                            Bank::F => "FSW"@,
                        },
                        opt.text(),
                        "8"@,
                        "fp"@,
                    ),
                )
            },
            VariantView::Load(v) => start.produce(
                match self.set {
                    Bank::T => "LI"@,
                    Bank::F => "FIMM.S"@,
                },
                Some(v),
                self,
                live,
            ),
            VariantView::Address => start.through("LW"@, self, live),
            VariantView::Dereference => start.through(
                match self.set {
                    Bank::T => "LW"@,
                    Bank::F => "FLW"@,
                },
                self,
                live,
            ),
            VariantView::Reference => match self.opm.variant {
                operand::Variant::Local(offset) => {
                    let (e, opd) = start.allocate(self.opdt, live);
                    e.emit(op3("ADDI"@, opd.text(), "fp"@, dec_int(offset as int))).mark_dirty(opd)
                },
                _ => start,
            },
            VariantView::Plus | VariantView::Minus | VariantView::Times | VariantView::Divide => {
                let (e, opm, opn) = start.sources(self, live);
                let (e, opd) = e.allocate(self.opdt, live);
                e.emit(op3(arith(self.variant, self.set), opd.text(), opm.text(), opn.text()))
                    .mark_dirty(opd)
            },
            VariantView::Negate => start.unary(
                match self.set {
                    Bank::T => "NEG"@,
                    Bank::F => "FNEG.S"@,
                },
                self,
                live,
            ),
            VariantView::Cast => start.unary(
                match self.set {
                    Bank::T => "IMOVF.S"@,
                    Bank::F => "FMOVI.S"@,
                },
                self,
                live,
            ),
            VariantView::Equal(l)
            | VariantView::NotEqual(l)
            | VariantView::Less(l)
            | VariantView::LessEqual(l)
            | VariantView::Greater(l)
            | VariantView::GreaterEqual(l) => {
                let (e, opm, opn) = start.sources(self, live);
                match self.set {
                    Bank::T => e.spill().emit(
                        op3(branch(self.variant), opm.text(), opn.text(), l.text()),
                    ),
                    Bank::F => {
                        let (e, opd) = e.allocate(self.opdt, live);
                        e.mark_dirty(opd).spill().emit(
                            op3(float_compare(self.variant), opd.text(), opm.text(), opn.text()),
                        ).emit(op3(float_branch(self.variant), opd.text(), "x0"@, l.text()))
                    },
                }
            },
            VariantView::Label(l) => start.emit(label_text(l)),
            VariantView::Jump(l) => start.emit(op1("J"@, l.text())),
            VariantView::Call(l, args) => {
                let total = dec_nat(((args.len() + 2) * 4) as nat);
                let e = start.emit(op3("ADDI"@, "sp"@, "sp"@, "-"@ + total)).emit(
                    "SW ra, 0(sp)\n"@,
                );
                let e = e.arguments(args, live, args.len() as int).spill();
                let e = e.emit(op1("JR"@, l.text())).emit("LW ra, 0(sp)\n"@);
                let e = if self.opdt.variant is Null {
                    e
                } else {
                    let (e, opd) = e.allocate(self.opdt, live);
                    e.emit(
                        mem(
                            match self.set {
                                Bank::T => "LW"@,
                                Bank::F => "FLW"@,
                            },
                            opd.text(),
                            "4"@,
                            "sp"@,
                        ),
                    ).mark_dirty(opd)
                };
                e.emit(op3("ADDI"@, "sp"@, "sp"@, total))
            },
            VariantView::Alloc(v) => start.emit(
                op3("ADDI"@, "sp"@, "sp"@, "-"@ + dec_nat(v as nat)),
            ),
            VariantView::SpillRegisters => start.spill(),
        };
        if self.variant is Reference && !(self.opm.variant is Local) {
            (table, Err(ErrorKind::RegAlloc))
        } else {
            (done.table, Ok(done.code))
        }
    }
}

/// A spill of all registers leaves no register newer than memory.
pub proof fn lemma_spill_leaves_clean(e: Emit)
    ensures
        e.spill().table.clean(),
        e.table.wf() ==> e.spill().table.wf(),
{
}

/// An instruction that ends with a spill of all registers leaves no
/// register newer than memory: the spill itself, a comparison, and a call
/// without a result.
pub proof fn lemma_to_code_clean(i: InstructionView, live: Set<Operand>, table: RegTableView)
    requires
        i.variant is SpillRegisters || i.variant.is_compare() || (i.variant is Call
            && i.opdt.variant is Null),
    ensures
        i.to_code(live, table).0.clean(),
        i.to_code(live, table).1 is Ok,
{
    reveal(InstructionView::to_code);
    let start = Emit { table, code: Seq::empty() };
    if i.variant is SpillRegisters {
        lemma_spill_leaves_clean(start);
    } else if i.variant is Call {
        let args = i.variant->Call_1;
        let total = dec_nat(((args.len() + 2) * 4) as nat);
        let e = start.emit(op3("ADDI"@, "sp"@, "sp"@, "-"@ + total)).emit("SW ra, 0(sp)\n"@);
        lemma_spill_leaves_clean(e.arguments(args, live, args.len() as int));
    } else {
        let (e, opm, opn) = start.sources(i, live);
        match i.set {
            Bank::T => {
                lemma_spill_leaves_clean(e);
            },
            Bank::F => {
                let (e2, opd) = e.allocate(i.opdt, live);
                lemma_spill_leaves_clean(e2.mark_dirty(opd));
            },
        }
    }
}

/// An instruction that names no operand leaves the register file alone.
pub proof fn lemma_to_code_keeps(i: InstructionView, live: Set<Operand>, table: RegTableView)
    requires
        i.variant is Ret || i.variant is Jump || i.variant is Label || i.variant is HeaderText
            || i.variant is HeaderStrings || i.variant is Alloc,
    ensures
        i.to_code(live, table).0 == table,
        i.to_code(live, table).1 is Ok,
{
    reveal(InstructionView::to_code);
}

/// Where the register file and the code stand.
pub open spec fn at(table: &RegTable, code: &String) -> Emit {
    Emit { table: table@, code: code@ }
}

fn ensure(table: &mut RegTable, op: &Operand, live: &LiveSet, code: &mut String) -> (r: Register)
    requires
        old(table).wf(),
    ensures
        final(table).wf(),
        (at(final(table), final(code)), r) == at(old(table), old(code)).ensure(*op, live@),
{
    table.ensure(op, live, code)
}

fn allocate(table: &mut RegTable, op: &Operand, live: &LiveSet, code: &mut String) -> (r: Register)
    requires
        old(table).wf(),
    ensures
        final(table).wf(),
        (at(final(table), final(code)), r) == at(old(table), old(code)).allocate(*op, live@),
{
    table.allocate(op, live, code)
}

fn release(table: &mut RegTable, op: &Operand, r: &Register, live: &LiveSet, code: &mut String)
    requires
        old(table).wf(),
    ensures
        final(table).wf(),
        at(final(table), final(code)) == at(old(table), old(code)).release(*op, *r, live@),
{
    if !live.contains(op) {
        table.free(r, live, code);
    }
}

fn mark_dirty(table: &mut RegTable, r: &Register, code: &mut String)
    requires
        old(table).wf(),
    ensures
        final(table).wf(),
        at(final(table), final(code)) == at(old(table), old(code)).mark_dirty(*r),
{
    table.mark_dirty(r, code);
}

fn spill(table: &mut RegTable, code: &mut String)
    requires
        old(table).wf(),
    ensures
        final(table).wf(),
        final(table)@.clean(),
        at(final(table), final(code)) == at(old(table), old(code)).spill(),
{
    let out = table.spill_registers();
    code.append(out.as_str());
}

fn push_text(code: &mut String, text: &str)
    ensures
        final(code)@ == old(code)@ + text@,
{
    code.append(text);
}

fn unary(table: &mut RegTable, mnemonic: &str, i: &Instruction, live: &LiveSet, code: &mut String)
    requires
        old(table).wf(),
    ensures
        final(table).wf(),
        at(final(table), final(code)) == at(old(table), old(code)).unary(mnemonic@, i@, live@),
{
    let opm = ensure(table, &i.opm, live, code);
    release(table, &i.opm, &opm, live, code);
    let opd = allocate(table, &i.opdt, live, code);
    let d = opd.to_text();
    let m = opm.to_text();
    push_op2(code, mnemonic, d.as_str(), m.as_str());
    mark_dirty(table, &opd, code);
}

fn through(table: &mut RegTable, mnemonic: &str, i: &Instruction, live: &LiveSet, code: &mut String)
    requires
        old(table).wf(),
    ensures
        final(table).wf(),
        at(final(table), final(code)) == at(old(table), old(code)).through(mnemonic@, i@, live@),
{
    let opm = ensure(table, &i.opm, live, code);
    release(table, &i.opm, &opm, live, code);
    let opd = allocate(table, &i.opdt, live, code);
    let d = opd.to_text();
    let m = opm.to_text();
    push_mem(code, mnemonic, d.as_str(), "0", m.as_str());
    mark_dirty(table, &opd, code);
}

fn consume(table: &mut RegTable, mnemonic: &str, i: &Instruction, live: &LiveSet, code: &mut String)
    requires
        old(table).wf(),
    ensures
        final(table).wf(),
        at(final(table), final(code)) == at(old(table), old(code)).consume(mnemonic@, i@, live@),
{
    let opt = ensure(table, &i.opdt, live, code);
    release(table, &i.opdt, &opt, live, code);
    let t = opt.to_text();
    push_op1(code, mnemonic, t.as_str());
}

fn produce(
    table: &mut RegTable,
    mnemonic: &str,
    source: Option<&str>,
    i: &Instruction,
    live: &LiveSet,
    code: &mut String,
)
    requires
        old(table).wf(),
    ensures
        final(table).wf(),
        at(final(table), final(code)) == at(old(table), old(code)).produce(
            mnemonic@,
            match source {
                Some(s) => Some(s@),
                None => None,
            },
            i@,
            live@,
        ),
{
    let opd = allocate(table, &i.opdt, live, code);
    let d = opd.to_text();
    match source {
        Some(s) => push_op2(code, mnemonic, d.as_str(), s),
        None => push_op1(code, mnemonic, d.as_str()),
    }
    mark_dirty(table, &opd, code);
}

fn sources(table: &mut RegTable, i: &Instruction, live: &LiveSet, code: &mut String) -> (r: (
    Register,
    Register,
))
    requires
        old(table).wf(),
    ensures
        final(table).wf(),
        (at(final(table), final(code)), r.0, r.1) == at(old(table), old(code)).sources(i@, live@),
{
    let opm = ensure(table, &i.opm, live, code);
    let opn = ensure(table, &i.opn, live, code);
    release(table, &i.opm, &opm, live, code);
    release(table, &i.opn, &opn, live, code);
    (opm, opn)
}

fn arguments(table: &mut RegTable, args: &Vec<Operand>, live: &LiveSet, code: &mut String)
    requires
        old(table).wf(),
    ensures
        final(table).wf(),
        at(final(table), final(code)) == at(old(table), old(code)).arguments(
            args@,
            live@,
            args@.len() as int,
        ),
{
    let ghost start = at(table, code);
    let mut k: usize = 0;
    while k < args.len()
        invariant
            k <= args@.len(),
            table.wf(),
            at(table, code) == start.arguments(args@, live@, k as int),
        decreases args@.len() - k,
    {
        let arg = &args[k];
        let r = ensure(table, arg, live, code);
        release(table, arg, &r, live, code);
        let text = r.to_text();
        let mut offset = String::new();
        push_dec(&mut offset, 8 + 4 * (k as u128));
        assert(offset@ =~= dec_nat((8 + 4 * k) as nat));
        push_mem(
            code,
            match arg.otype {
                operand::Type::T => "SW",
                operand::Type::F => "FSW",
            },
            text.as_str(),
            offset.as_str(),
            "sp",
        );
        k += 1;
    }
}

fn arith_mnemonic(v: &Variant, set: Bank) -> (s: &'static str)
    ensures
        s@ == arith(v@, set),
{
    match (v, set) {
        (Variant::Plus, Bank::T) => "ADD",
        (Variant::Minus, Bank::T) => "SUB",
        (Variant::Times, Bank::T) => "MUL",
        (Variant::Divide, Bank::T) => "DIV",
        (Variant::Plus, Bank::F) => "FADD.S",
        (Variant::Minus, Bank::F) => "FSUB.S",
        (Variant::Times, Bank::F) => "FMUL.S",
        _ => "FDIV.S",
    }
}

fn compare(
    table: &mut RegTable,
    i: &Instruction,
    l: &Label,
    live: &LiveSet,
    code: &mut String,
)
    requires
        old(table).wf(),
        i@.variant.is_compare(),
        i@.variant.target() == Some(*l),
    ensures
        final(table).wf(),
        ({
            let (e, opm, opn) = at(old(table), old(code)).sources(i@, live@);
            at(final(table), final(code)) == match i.set {
                Bank::T => e.spill().emit(op3(branch(i@.variant), opm.text(), opn.text(), l.text())),
                Bank::F => {
                    let (e, opd) = e.allocate(i.opdt, live@);
                    e.mark_dirty(opd).spill().emit(
                        op3(float_compare(i@.variant), opd.text(), opm.text(), opn.text()),
                    ).emit(op3(float_branch(i@.variant), opd.text(), "x0"@, l.text()))
                },
            }
        }),
{
    let (opm, opn) = sources(table, i, live, code);
    let m = opm.to_text();
    let n = opn.to_text();
    let target = l.to_text();
    match i.set {
        Bank::T => {
            spill(table, code);
            let mnemonic = match &i.variant {
                Variant::Equal(_) => "BNE",
                Variant::NotEqual(_) => "BEQ",
                Variant::Less(_) => "BGE",
                Variant::LessEqual(_) => "BGT",
                Variant::Greater(_) => "BLE",
                _ => "BLT",
            };
            push_op3(code, mnemonic, m.as_str(), n.as_str(), target.as_str());
        },
        Bank::F => {
            let opd = allocate(table, &i.opdt, live, code);
            mark_dirty(table, &opd, code);
            let d = opd.to_text();
            let (op1, op2) = match &i.variant {
                Variant::Equal(_) => ("FEQ.S", "BEQ"),
                Variant::NotEqual(_) => ("FEQ.S", "BNE"),
                Variant::Less(_) => ("FLT.S", "BEQ"),
                Variant::LessEqual(_) => ("FLE.S", "BEQ"),
                Variant::Greater(_) => ("FLE.S", "BNE"),
                _ => ("FLT.S", "BNE"),
            };
            spill(table, code);
            push_op3(code, op1, d.as_str(), m.as_str(), n.as_str());
            push_op3(code, op2, d.as_str(), "x0", target.as_str());
        },
    }
}

fn call(
    table: &mut RegTable,
    i: &Instruction,
    l: &Label,
    args: &Vec<Operand>,
    live: &LiveSet,
    code: &mut String,
)
    requires
        old(table).wf(),
    ensures
        final(table).wf(),
        ({
            let total = dec_nat(((args@.len() + 2) * 4) as nat);
            let e = at(old(table), old(code)).emit(op3("ADDI"@, "sp"@, "sp"@, "-"@ + total)).emit(
                "SW ra, 0(sp)\n"@,
            );
            let e = e.arguments(args@, live@, args@.len() as int).spill();
            let e = e.emit(op1("JR"@, l.text())).emit("LW ra, 0(sp)\n"@);
            let e = if i.opdt.variant is Null {
                e
            } else {
                let (e, opd) = e.allocate(i.opdt, live@);
                e.emit(
                    mem(
                        match i.set {
                            Bank::T => "LW"@,
                            Bank::F => "FLW"@,
                        },
                        opd.text(),
                        "4"@,
                        "sp"@,
                    ),
                ).mark_dirty(opd)
            };
            at(final(table), final(code)) == e.emit(op3("ADDI"@, "sp"@, "sp"@, total))
        }),
{
    let mut total = String::new();
    push_dec(&mut total, (args.len() as u128 + 2) * 4);
    assert(total@ =~= dec_nat(((args@.len() + 2) * 4) as nat));
    let mut down = String::from_str("-");
    down.append(total.as_str());
    push_op3(code, "ADDI", "sp", "sp", down.as_str());
    push_text(code, "SW ra, 0(sp)\n");
    arguments(table, args, live, code);
    spill(table, code);
    let target = l.to_text();
    push_op1(code, "JR", target.as_str());
    push_text(code, "LW ra, 0(sp)\n");
    match i.opdt.variant {
        operand::Variant::Null => {},
        _ => {
            let opd = allocate(table, &i.opdt, live, code);
            let d = opd.to_text();
            push_mem(
                code,
                match i.set {
                    Bank::T => "LW",
                    Bank::F => "FLW",
                },
                d.as_str(),
                "4",
                "sp",
            );
            mark_dirty(table, &opd, code);
        },
    }
    push_op3(code, "ADDI", "sp", "sp", total.as_str());
}

fn code_fixed(i: &Instruction, table: &RegTable, live: &LiveSet) -> (code: String)
    requires
        i@.variant is HeaderText || i@.variant is HeaderStrings || i@.variant is Ret
            || i@.variant is Label || i@.variant is Jump || i@.variant is Alloc,
    ensures
        (table@, Ok::<Seq<char>, ErrorKind>(code@)) == i@.to_code(live@, table@),
{
    reveal(InstructionView::to_code);
    let mut code = String::new();
    match &i.variant {
        Variant::HeaderText(l) => {
            let mut text = String::from_str(".section .text\nMV fp, sp\nJR ");
            l.push_to(&mut text);
            text.append("\nHALT\n");
            push_text(&mut code, text.as_str());
        },
        Variant::HeaderStrings(s) => {
            let mut text = String::from_str(".section .strings\n");
            text.append(s.as_str());
            push_text(&mut code, text.as_str());
        },
        Variant::Ret => push_text(&mut code, "MV sp, fp\nLW fp, 0(fp)\nADDI sp, sp, 4\nRET\n"),
        Variant::Label(l) => {
            let mut text = l.to_text();
            match l {
                Label::FunctionHead(_) => text.append(
                    ":\nADDI sp, sp, -4\nSW fp, 0(sp)\nMV fp, sp\n",
                ),
                _ => text.append(":\n"),
            }
            push_text(&mut code, text.as_str());
        },
        Variant::Jump(l) => {
            let target = l.to_text();
            push_op1(&mut code, "J", target.as_str());
        },
        Variant::Alloc(v) => {
            let mut down = String::from_str("-");
            push_dec(&mut down, *v as u128);
            push_op3(&mut code, "ADDI", "sp", "sp", down.as_str());
        },
        _ => {},
    }
    code
}

fn code_stores(i: &Instruction, live: &LiveSet, table: &mut RegTable) -> (code: String)
    requires
        old(table).wf(),
        i@.variant is AddrAssign || i@.variant is Save,
    ensures
        final(table).wf(),
        (final(table)@, Ok::<Seq<char>, ErrorKind>(code@)) == i@.to_code(live@, old(table)@),
{
    reveal(InstructionView::to_code);
    let mut code = String::new();
    let store = match i.set {
        Bank::T => "SW",
        Bank::F => "FSW",
    };
    match &i.variant {
        Variant::AddrAssign => {
            let opd = ensure(table, &i.opdt, live, &mut code);
            let opm = ensure(table, &i.opm, live, &mut code);
            release(table, &i.opdt, &opd, live, &mut code);
            release(table, &i.opm, &opm, live, &mut code);
            let d = opd.to_text();
            let m = opm.to_text();
            push_mem(&mut code, store, m.as_str(), "0", d.as_str());
        },
        _ => {
            let opt = ensure(table, &i.opdt, live, &mut code);
            release(table, &i.opdt, &opt, live, &mut code);
            let t = opt.to_text();
            push_mem(&mut code, store, t.as_str(), "8", "fp");
        },
    }
    code
}

fn code_unary(i: &Instruction, live: &LiveSet, table: &mut RegTable) -> (code: String)
    requires
        old(table).wf(),
        i@.variant is Assign || i@.variant is Malloc || i@.variant is Negate || i@.variant is Cast,
    ensures
        final(table).wf(),
        (final(table)@, Ok::<Seq<char>, ErrorKind>(code@)) == i@.to_code(live@, old(table)@),
{
    reveal(InstructionView::to_code);
    let mut code = String::new();
    let mnemonic = match (&i.variant, i.set) {
        (Variant::Assign, Bank::T) => "MV",
        (Variant::Assign, Bank::F) => "FMV.S",
        (Variant::Malloc, _) => "MALLOC",
        (Variant::Negate, Bank::T) => "NEG",
        (Variant::Negate, Bank::F) => "FNEG.S",
        (_, Bank::T) => "IMOVF.S",
        (_, Bank::F) => "FMOVI.S",
    };
    unary(table, mnemonic, i, live, &mut code);
    code
}

fn code_consume(i: &Instruction, live: &LiveSet, table: &mut RegTable) -> (code: String)
    requires
        old(table).wf(),
        i@.variant is Free || i@.variant is Put || i@.variant is PutS,
    ensures
        final(table).wf(),
        (final(table)@, Ok::<Seq<char>, ErrorKind>(code@)) == i@.to_code(live@, old(table)@),
{
    reveal(InstructionView::to_code);
    let mut code = String::new();
    let mnemonic = match (&i.variant, i.set) {
        (Variant::Free, _) => "FREE",
        (Variant::PutS, _) => "PUTS",
        (_, Bank::T) => "PUTI",
        (_, Bank::F) => "PUTF",
    };
    consume(table, mnemonic, i, live, &mut code);
    code
}

fn code_produce(i: &Instruction, live: &LiveSet, table: &mut RegTable) -> (code: String)
    requires
        old(table).wf(),
        i@.variant is Get || i@.variant is Load,
    ensures
        final(table).wf(),
        (final(table)@, Ok::<Seq<char>, ErrorKind>(code@)) == i@.to_code(live@, old(table)@),
{
    reveal(InstructionView::to_code);
    let mut code = String::new();
    match &i.variant {
        Variant::Load(v) => produce(
            table,
            match i.set {
                Bank::T => "LI",
                Bank::F => "FIMM.S",
            },
            Some(v.as_str()),
            i,
            live,
            &mut code,
        ),
        _ => produce(
            table,
            match i.set {
                Bank::T => "GETI",
                Bank::F => "GETF",
            },
            None,
            i,
            live,
            &mut code,
        ),
    }
    code
}

fn code_through(i: &Instruction, live: &LiveSet, table: &mut RegTable) -> (code: String)
    requires
        old(table).wf(),
        i@.variant is Address || i@.variant is Dereference,
    ensures
        final(table).wf(),
        (final(table)@, Ok::<Seq<char>, ErrorKind>(code@)) == i@.to_code(live@, old(table)@),
{
    reveal(InstructionView::to_code);
    let mut code = String::new();
    let mnemonic = match (&i.variant, i.set) {
        (Variant::Dereference, Bank::F) => "FLW",
        _ => "LW",
    };
    through(table, mnemonic, i, live, &mut code);
    code
}

fn code_reference(i: &Instruction, live: &LiveSet, table: &mut RegTable) -> (r: Result<
    String,
    Error,
>)
    requires
        old(table).wf(),
        i@.variant is Reference,
    ensures
        final(table).wf(),
        (final(table)@, crate::error::outcome(r)) == i@.to_code(live@, old(table)@),
{
    reveal(InstructionView::to_code);
    let mut code = String::new();
    match i.opm.variant {
        operand::Variant::Local(offset) => {
            let opd = allocate(table, &i.opdt, live, &mut code);
            let d = opd.to_text();
            let mut o = String::new();
            push_int(&mut o, offset as i64);
            assert(o@ =~= dec_int(offset as int));
            push_op3(&mut code, "ADDI", d.as_str(), "fp", o.as_str());
            mark_dirty(table, &opd, &mut code);
            Ok(code)
        },
        _ => Err(
            Error::RegAlloc(String::from_str("to_code: reference to an operand outside the frame")),
        ),
    }
}

fn code_arith(i: &Instruction, live: &LiveSet, table: &mut RegTable) -> (code: String)
    requires
        old(table).wf(),
        i@.variant is Plus || i@.variant is Minus || i@.variant is Times || i@.variant is Divide,
    ensures
        final(table).wf(),
        (final(table)@, Ok::<Seq<char>, ErrorKind>(code@)) == i@.to_code(live@, old(table)@),
{
    reveal(InstructionView::to_code);
    let mut code = String::new();
    let (opm, opn) = sources(table, i, live, &mut code);
    let opd = allocate(table, &i.opdt, live, &mut code);
    let d = opd.to_text();
    let m = opm.to_text();
    let n = opn.to_text();
    push_op3(&mut code, arith_mnemonic(&i.variant, i.set), d.as_str(), m.as_str(), n.as_str());
    mark_dirty(table, &opd, &mut code);
    code
}

fn code_compare(i: &Instruction, l: &Label, live: &LiveSet, table: &mut RegTable) -> (code: String)
    requires
        old(table).wf(),
        i@.variant.is_compare(),
        i@.variant.target() == Some(*l),
    ensures
        final(table).wf(),
        (final(table)@, Ok::<Seq<char>, ErrorKind>(code@)) == i@.to_code(live@, old(table)@),
{
    reveal(InstructionView::to_code);
    let mut code = String::new();
    compare(table, i, l, live, &mut code);
    code
}

fn code_call(i: &Instruction, l: &Label, args: &Vec<Operand>, live: &LiveSet, table: &mut RegTable) -> (code:
    String)
    requires
        old(table).wf(),
        i@.variant == VariantView::Call(*l, args@),
    ensures
        final(table).wf(),
        (final(table)@, Ok::<Seq<char>, ErrorKind>(code@)) == i@.to_code(live@, old(table)@),
{
    reveal(InstructionView::to_code);
    let mut code = String::new();
    call(table, i, l, args, live, &mut code);
    code
}

fn code_spill(i: &Instruction, live: &LiveSet, table: &mut RegTable) -> (code: String)
    requires
        old(table).wf(),
        i@.variant is SpillRegisters,
    ensures
        final(table).wf(),
        final(table)@.clean(),
        (final(table)@, Ok::<Seq<char>, ErrorKind>(code@)) == i@.to_code(live@, old(table)@),
{
    reveal(InstructionView::to_code);
    let mut code = String::new();
    spill(table, &mut code);
    code
}

impl Instruction {
    /// The assembly of the instruction, given the operands that are live
    /// after it; the register file changes as the instruction claims and
    /// frees registers.
    pub fn to_code(&self, live_set: &LiveSet, reg_table: &mut RegTable) -> (r: Result<String, Error>)
        requires
            old(reg_table).wf(),
        ensures
            final(reg_table).wf(),
            (final(reg_table)@, crate::error::outcome(r)) == self@.to_code(
                live_set@,
                old(reg_table)@,
            ),
    {
        match &self.variant {
            Variant::HeaderText(_)
            | Variant::HeaderStrings(_)
            | Variant::Ret
            | Variant::Label(_)
            | Variant::Jump(_)
            | Variant::Alloc(_) => Ok(code_fixed(self, reg_table, live_set)),
            Variant::AddrAssign | Variant::Save => Ok(code_stores(self, live_set, reg_table)),
            Variant::Assign | Variant::Malloc | Variant::Negate | Variant::Cast => Ok(
                code_unary(self, live_set, reg_table),
            ),
            Variant::Free | Variant::Put | Variant::PutS => Ok(
                code_consume(self, live_set, reg_table),
            ),
            Variant::Get | Variant::Load(_) => Ok(code_produce(self, live_set, reg_table)),
            Variant::Address | Variant::Dereference => Ok(code_through(self, live_set, reg_table)),
            Variant::Reference => code_reference(self, live_set, reg_table),
            Variant::Plus | Variant::Minus | Variant::Times | Variant::Divide => Ok(
                code_arith(self, live_set, reg_table),
            ),
            Variant::Equal(l)
            | Variant::NotEqual(l)
            | Variant::Less(l)
            | Variant::LessEqual(l)
            | Variant::Greater(l)
            | Variant::GreaterEqual(l) => Ok(code_compare(self, l, live_set, reg_table)),
            Variant::Call(l, o) => Ok(code_call(self, l, o, live_set, reg_table)),
            Variant::SpillRegisters => Ok(code_spill(self, live_set, reg_table)),
        }
    }
}

} // verus!
