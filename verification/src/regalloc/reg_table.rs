use super::live_set::LiveSet;
use crate::error::Error;
use crate::text::dec_int;
use crate::text::hex_word;
use crate::text::push_dec;
use crate::text::push_hex_word;
use crate::text::push_int;
use crate::three_ac::operand::Type;
use crate::three_ac::operand::Variant;
use crate::three_ac::Operand;
use vstd::prelude::*;

verus! {

/// An integer register, by its number.
#[derive(Clone, Copy, Debug, PartialEq, Eq, Structural)]
pub struct Regular(pub u32);

/// A float register, by its number.
#[derive(Clone, Copy, Debug, PartialEq, Eq, Structural)]
pub struct Float(pub u32);

#[derive(Clone, Copy, Debug, PartialEq, Eq, Structural)]
pub enum Register {
    X(Regular),
    F(Float),
}

impl Register {
    /// The name of the register in assembly.
    pub open spec fn text(self) -> Seq<char> {
        match self {
            Register::X(r) => "x"@ + dec_int(r.0 as int),
            Register::F(r) => "f"@ + dec_int(r.0 as int),
        }
    }

    /// The bank of the register.
    pub open spec fn bank(self) -> Type {
        match self {
            Register::X(_) => Type::T,
            Register::F(_) => Type::F,
        }
    }

    /// The place of the register in its bank, whatever the bank's size, or
    /// -1 for a register that no bank holds: `x4` to `x7` come first, `x8`
    /// is the frame pointer, `x9` follows `x7`; `f1` comes first.
    pub open spec fn slot(self) -> int {
        match self {
            Register::X(r) => if 4 <= r.0 <= 7 {
                r.0 - 4
            } else if r.0 >= 9 {
                r.0 - 5
            } else {
                -1
            },
            Register::F(r) => if r.0 >= 1 {
                r.0 - 1
            } else {
                -1
            },
        }
    }

    /// The store that writes this register to memory.
    pub open spec fn store(self) -> Seq<char> {
        match self {
            Register::X(_) => "SW"@,
            Register::F(_) => "FSW"@,
        }
    }

    /// The load that reads this register from memory.
    pub open spec fn load(self) -> Seq<char> {
        match self {
            Register::X(_) => "LW"@,
            Register::F(_) => "FLW"@,
        }
    }

    /// Appends the name of the register.
    pub fn push_to(&self, s: &mut String)
        ensures
            final(s)@ == old(s)@ + self.text(),
    {
        match self {
            Register::X(r) => {
                s.append("x");
                push_dec(s, r.0 as u128);
            },
            Register::F(r) => {
                s.append("f");
                push_dec(s, r.0 as u128);
            },
        }
        assert(final(s)@ =~= old(s)@ + self.text());
    }

    /// The name of the register in assembly.
    pub fn to_text(&self) -> (s: String)
        ensures
            s@ == self.text(),
    {
        let mut s = String::new();
        self.push_to(&mut s);
        assert(s@ =~= self.text());
        s
    }
}

/// The register at a place of a bank.
pub open spec fn register_at(bank: Type, i: int) -> Register {
    match bank {
        Type::T => Register::X(
            Regular(
                (if i < 4 {
                    i + 4
                } else {
                    i + 5
                }) as u32,
            ),
        ),
        Type::F => Register::F(Float((i + 1) as u32)),
    }
}

/// The stores that write a register back to the home of its operand: to the
/// address of a global, by way of `x3`, or to a slot of the frame. An
/// operand without a home in memory is written nowhere.
pub open spec fn spill_text(r: Register, op: Operand) -> Seq<char> {
    match op.variant {
        Variant::Global(a) => "LA x3, 0x"@ + hex_word(a) + "\n"@ + r.store() + " "@ + r.text()
            + ", 0(x3)\n"@,
        Variant::Local(i) => r.store() + " "@ + r.text() + ", "@ + dec_int(i as int) + "(fp)\n"@,
        _ => Seq::empty(),
    }
}

/// The loads that read the operand from its home into a register.
pub open spec fn load_text(r: Register, op: Operand) -> Seq<char> {
    match op.variant {
        Variant::Global(a) => "LA x3, 0x"@ + hex_word(a) + "\n"@ + r.load() + " "@ + r.text()
            + ", 0(x3)\n"@,
        Variant::Local(i) => r.load() + " "@ + r.text() + ", "@ + dec_int(i as int) + "(fp)\n"@,
        _ => Seq::empty(),
    }
}

/// Appends the stores that write a register back to the home of its operand.
pub fn push_spill(code: &mut String, r: &Register, op: &Operand)
    ensures
        final(code)@ == old(code)@ + spill_text(*r, *op),
{
    let store = match r {
        Register::X(_) => "SW",
        Register::F(_) => "FSW",
    };
    match op.variant {
        Variant::Global(a) => {
            code.append("LA x3, 0x");
            push_hex_word(code, a);
            code.append("\n");
            code.append(store);
            code.append(" ");
            r.push_to(code);
            code.append(", 0(x3)\n");
        },
        Variant::Local(i) => {
            code.append(store);
            code.append(" ");
            r.push_to(code);
            code.append(", ");
            push_int(code, i as i64);
            code.append("(fp)\n");
        },
        _ => {},
    }
    assert(final(code)@ =~= old(code)@ + spill_text(*r, *op));
}

/// Appends the loads that read the operand from its home into a register.
pub fn push_load(code: &mut String, r: &Register, op: &Operand)
    ensures
        final(code)@ == old(code)@ + load_text(*r, *op),
{
    let load = match r {
        Register::X(_) => "LW",
        Register::F(_) => "FLW",
    };
    match op.variant {
        Variant::Global(a) => {
            code.append("LA x3, 0x");
            push_hex_word(code, a);
            code.append("\n");
            code.append(load);
            code.append(" ");
            r.push_to(code);
            code.append(", 0(x3)\n");
        },
        Variant::Local(i) => {
            code.append(load);
            code.append(" ");
            r.push_to(code);
            code.append(", ");
            push_int(code, i as i64);
            code.append("(fp)\n");
        },
        _ => {},
    }
    assert(final(code)@ =~= old(code)@ + load_text(*r, *op));
}

/// What a register holds: an operand, and whether the register is newer
/// than the operand's home in memory.
#[derive(Clone, Copy, Debug, PartialEq, Eq, Structural)]
pub struct Entry {
    pub operand: Operand,
    pub dirty: bool,
}

impl Entry {
    /// A register that holds nothing.
    pub open spec fn null() -> Entry {
        Entry { operand: Operand::null(), dirty: false }
    }

    /// A register that holds nothing.
    pub fn new_null() -> (e: Entry)
        ensures
            e == Entry::null(),
    {
        Entry { operand: Operand::new_null(), dirty: false }
    }

    /// Empties the register.
    pub fn reset(&mut self)
        ensures
            *final(self) == Entry::null(),
    {
        self.operand = Operand::new_null();
        self.dirty = false;
    }

    /// Marks the register as newer than memory.
    pub fn dirty(&mut self)
        ensures
            *final(self) == (Entry { operand: old(self).operand, dirty: true }),
    {
        self.dirty = true;
    }

    /// Makes the register hold `operand`, as memory has it.
    pub fn update(&mut self, operand: Operand)
        ensures
            *final(self) == (Entry { operand, dirty: false }),
    {
        self.operand = operand;
        self.dirty = false;
    }

    /// Whether the register holds nothing.
    pub fn is_null(&self) -> (b: bool)
        ensures
            b == self.operand.variant is Null,
    {
        match self.operand.variant {
            Variant::Null => true,
            _ => false,
        }
    }

    /// The stores that write integer register `r` back to the home of its operand.
    pub fn spill_regular_entry(&self, r: Regular) -> (s: String)
        ensures
            s@ == spill_text(Register::X(r), self.operand),
    {
        let mut s = String::new();
        push_spill(&mut s, &Register::X(r), &self.operand);
        assert(s@ =~= spill_text(Register::X(r), self.operand));
        s
    }

    /// The stores that write float register `r` back to the home of its operand.
    pub fn spill_float_entry(&self, r: Float) -> (s: String)
        ensures
            s@ == spill_text(Register::F(r), self.operand),
    {
        let mut s = String::new();
        push_spill(&mut s, &Register::F(r), &self.operand);
        assert(s@ =~= spill_text(Register::F(r), self.operand));
        s
    }
}

/// What the allocator looks for in a bank, in the order of preference.
pub enum Want {
    /// A register that holds the operand already.
    Hit(Operand),
    /// A register that holds nothing.
    Null,
    /// A register that is not newer than memory.
    Clean,
}

/// Whether a register holds what is looked for.
pub open spec fn wanted(e: Entry, w: Want) -> bool {
    match w {
        Want::Hit(op) => e.operand == op,
        Want::Null => e.operand.variant is Null,
        Want::Clean => !e.dirty,
    }
}

/// The first place at or after `from` that holds what is looked for.
pub open spec fn first_wanted(bank: Seq<Entry>, w: Want, from: int) -> Option<int>
    decreases bank.len() - from,
{
    if from < 0 || from >= bank.len() {
        None
    } else if wanted(bank[from], w) {
        Some(from)
    } else {
        first_wanted(bank, w, from + 1)
    }
}

/// The first place that holds what is looked for holds it, and no place before it does.
pub proof fn lemma_first_wanted(bank: Seq<Entry>, w: Want, from: int)
    requires
        0 <= from,
    ensures
        match first_wanted(bank, w, from) {
            Some(k) => from <= k < bank.len() && wanted(bank[k], w) && forall|j: int|
                from <= j < k ==> !wanted(#[trigger] bank[j], w),
            None => forall|j: int| from <= j < bank.len() ==> !wanted(#[trigger] bank[j], w),
        },
    decreases bank.len() - from,
{
    if from < bank.len() && !wanted(bank[from], w) {
        lemma_first_wanted(bank, w, from + 1);
    }
}

/// The place that is claimed for an operand: the first that holds it
/// already; else the first that holds nothing; else the first that is not
/// newer than memory; else the first.
pub open spec fn choose_slot(bank: Seq<Entry>, op: Operand) -> int {
    match first_wanted(bank, Want::Hit(op), 0) {
        Some(i) => i,
        None => match first_wanted(bank, Want::Null, 0) {
            Some(i) => i,
            None => match first_wanted(bank, Want::Clean, 0) {
                Some(i) => i,
                None => 0,
            },
        },
    }
}

/// The stores of a full spill for the first `n` registers of a bank: one
/// for each that is newer than memory.
pub open spec fn spill_upto(bank: Seq<Entry>, t: Type, n: int) -> Seq<char>
    decreases n,
{
    if n <= 0 {
        Seq::empty()
    } else {
        spill_upto(bank, t, n - 1) + if bank[n - 1].dirty {
            spill_text(register_at(t, n - 1), bank[n - 1].operand)
        } else {
            Seq::empty()
        }
    }
}

/// A bank of `n` registers that hold nothing.
pub open spec fn cleared(n: nat) -> Seq<Entry> {
    Seq::new(n, |i: int| Entry::null())
}

/// Whether a register drops its operand after a write to the register at
/// place `keep`: every other register whose operand has a home in memory.
pub open spec fn aliased(bank: Seq<Entry>, keep: int, i: int) -> bool {
    i != keep && bank[i].operand.variable()
}

/// The stores of an alias spill for the first `n` registers of a bank.
pub open spec fn alias_upto(bank: Seq<Entry>, t: Type, keep: int, n: int) -> Seq<char>
    decreases n,
{
    if n <= 0 {
        Seq::empty()
    } else {
        alias_upto(bank, t, keep, n - 1) + if aliased(bank, keep, n - 1) && bank[n - 1].dirty {
            spill_text(register_at(t, n - 1), bank[n - 1].operand)
        } else {
            Seq::empty()
        }
    }
}

/// A bank after an alias spill.
pub open spec fn alias_cleared(bank: Seq<Entry>, keep: int) -> Seq<Entry> {
    Seq::new(
        bank.len(),
        |i: int|
            if aliased(bank, keep, i) {
                Entry::null()
            } else {
                bank[i]
            },
    )
}

/// The register file: the integer bank `x4..` without `x8`, and the float
/// bank `f1..`.
#[derive(Debug)]
pub struct RegTable {
    regular: Vec<Entry>,
    float: Vec<Entry>,
}

pub struct RegTableView {
    pub regular: Seq<Entry>,
    pub float: Seq<Entry>,
}

impl View for RegTable {
    type V = RegTableView;

    closed spec fn view(&self) -> RegTableView {
        RegTableView { regular: self.regular@, float: self.float@ }
    }
}

/// The size of the integer bank for a register count.
pub open spec fn regular_len(reg_count: int) -> int {
    if reg_count == 8 {
        4
    } else {
        reg_count - 5
    }
}

impl RegTableView {
    /// The banks are those of some register count of 8 or more.
    pub open spec fn wf(self) -> bool {
        &&& 7 <= self.float.len() < u32::MAX
        &&& self.regular.len() == regular_len(self.float.len() as int + 1)
    }

    /// The register file of a register count, with nothing in it.
    pub open spec fn empty(reg_count: u32) -> RegTableView {
        RegTableView {
            regular: cleared(regular_len(reg_count as int) as nat),
            float: cleared((reg_count - 1) as nat),
        }
    }

    /// No register is newer than memory.
    pub open spec fn clean(self) -> bool {
        &&& forall|i: int| 0 <= i < self.regular.len() ==> !(#[trigger] self.regular[i]).dirty
        &&& forall|i: int| 0 <= i < self.float.len() ==> !(#[trigger] self.float[i]).dirty
    }

    /// The registers of a bank, in the order of their numbers.
    pub open spec fn bank(self, t: Type) -> Seq<Entry> {
        match t {
            Type::T => self.regular,
            Type::F => self.float,
        }
    }

    /// The register file with one bank replaced.
    pub open spec fn with_bank(self, t: Type, bank: Seq<Entry>) -> RegTableView {
        match t {
            Type::T => RegTableView { regular: bank, ..self },
            Type::F => RegTableView { float: bank, ..self },
        }
    }

    /// Whether the register file holds the register.
    pub open spec fn holds(self, r: Register) -> bool {
        0 <= r.slot() < self.bank(r.bank()).len()
    }

    /// What a register holds.
    pub open spec fn entry(self, r: Register) -> Entry {
        self.bank(r.bank())[r.slot()]
    }

    /// The register file with what one register holds replaced; unchanged for a register that it does not hold.
    pub open spec fn set_entry(self, r: Register, e: Entry) -> RegTableView {
        if self.holds(r) {
            self.with_bank(r.bank(), self.bank(r.bank()).update(r.slot(), e))
        } else {
            self
        }
    }

    /// A full spill: each register that is newer than memory is stored, the
    /// integer bank first, and every register is reset.
    pub open spec fn spill_registers(self) -> (RegTableView, Seq<char>) {
        (
            RegTableView { regular: cleared(self.regular.len()), float: cleared(self.float.len()) },
            spill_upto(self.regular, Type::T, self.regular.len() as int) + spill_upto(
                self.float,
                Type::F,
                self.float.len() as int,
            ),
        )
    }

    /// Frees a register: it is stored where it is newer than memory and its
    /// operand is live, and reset. A register that the file does not hold is
    /// left alone.
    pub open spec fn free(self, r: Register, live: Set<Operand>) -> (RegTableView, Seq<char>) {
        if self.holds(r) {
            (
                self.set_entry(r, Entry::null()),
                if self.entry(r).dirty && live.contains(self.entry(r).operand) {
                    spill_text(r, self.entry(r).operand)
                } else {
                    Seq::empty()
                },
            )
        } else {
            (self, Seq::empty())
        }
    }

    /// The register that is claimed for an operand.
    pub open spec fn choose_register(self, op: Operand) -> Register {
        register_at(op.otype, choose_slot(self.bank(op.otype), op))
    }

    /// Claims a register for an operand: the chosen register is freed, then
    /// holds the operand and is not newer than memory.
    pub open spec fn allocate(self, op: Operand, live: Set<Operand>) -> (
        RegTableView,
        Register,
        Seq<char>,
    ) {
        let r = self.choose_register(op);
        let (t, text) = self.free(r, live);
        (t.set_entry(r, Entry { operand: op, dirty: false }), r, text)
    }

    /// The register that an operand is read from. A string's address is
    /// loaded into `x3`. An operand that a register of its bank holds is
    /// read from the first such register. Any other is given a register and
    /// loaded from its home; one without a home in memory is given a
    /// register all the same, and read from the register 99 of its bank.
    pub open spec fn ensure(self, op: Operand, live: Set<Operand>) -> (
        RegTableView,
        Register,
        Seq<char>,
    ) {
        match op.variant {
            Variant::Str(a) => (
                self,
                Register::X(Regular(3)),
                "LA x3, 0x"@ + hex_word(a) + "\n"@,
            ),
            _ => match first_wanted(self.bank(op.otype), Want::Hit(op), 0) {
                Some(i) => (self, register_at(op.otype, i), Seq::empty()),
                None => {
                    let (t, r, text) = self.allocate(op, live);
                    if op.variable() {
                        (t, r, text + load_text(r, op))
                    } else {
                        (
                            t,
                            match op.otype {
                                Type::T => Register::X(Regular(99)),
                                Type::F => Register::F(Float(99)),
                            },
                            text,
                        )
                    }
                },
            },
        }
    }

    /// The place that an alias spill passes over after a write to `r`.
    pub open spec fn kept(self, r: Register, t: Type) -> int {
        if r.bank() == t {
            r.slot()
        } else {
            -1
        }
    }

    /// Marks a register as newer than memory, then spills aliases: every
    /// other register whose operand has a home in memory is stored where it
    /// is newer than memory, and reset.
    pub open spec fn mark_dirty(self, r: Register) -> (RegTableView, Seq<char>) {
        let t = if self.holds(r) {
            self.set_entry(r, Entry { operand: self.entry(r).operand, dirty: true })
        } else {
            self
        };
        (
            RegTableView {
                regular: alias_cleared(t.regular, self.kept(r, Type::T)),
                float: alias_cleared(t.float, self.kept(r, Type::F)),
            },
            alias_upto(t.regular, Type::T, self.kept(r, Type::T), t.regular.len() as int)
                + alias_upto(t.float, Type::F, self.kept(r, Type::F), t.float.len() as int),
        )
    }
}

/// A full spill leaves no register newer than memory.
pub proof fn lemma_spill_clean(t: RegTableView)
    ensures
        t.spill_registers().0.clean(),
        t.wf() ==> t.spill_registers().0.wf(),
{
}

impl RegTable {
    /// The banks are those of some register count of 8 or more.
    pub open spec fn wf(&self) -> bool {
        self@.wf()
    }

    /// The register file for `reg_count` registers in each bank; 8 at least.
    pub fn new(reg_count: u32) -> (r: Result<RegTable, Error>)
        ensures
            match r {
                Ok(t) => reg_count >= 8 && t.wf() && t@ == RegTableView::empty(reg_count),
                Err(e) => reg_count < 8 && e is RegAlloc,
            },
    {
        if reg_count < 8 {
            return Err(Error::RegAlloc(String::from_str("new: reg_count less than 8")));
        }
        let mut regular: Vec<Entry> = Vec::new();
        let mut u: u32 = 4;
        while u < reg_count
            invariant
                4 <= u <= reg_count,
                8 <= reg_count,
                regular@.len() == if u <= 8 {
                    u - 4
                } else {
                    u - 5
                },
                forall|i: int| 0 <= i < regular@.len() ==> regular@[i] == Entry::null(),
            decreases reg_count - u,
        {
            if u != 8 {
                regular.push(Entry::new_null());
            }
            u += 1;
        }
        let mut float: Vec<Entry> = Vec::new();
        let mut u: u32 = 1;
        while u < reg_count
            invariant
                1 <= u <= reg_count,
                float@.len() == u - 1,
                forall|i: int| 0 <= i < float@.len() ==> float@[i] == Entry::null(),
            decreases reg_count - u,
        {
            float.push(Entry::new_null());
            u += 1;
        }
        let t = RegTable { regular, float };
        assert(t@.regular =~= RegTableView::empty(reg_count).regular);
        assert(t@.float =~= RegTableView::empty(reg_count).float);
        Ok(t)
    }

    /// The place of a register in its bank, where the file holds it.
    fn slot(&self, r: &Register) -> (s: Option<usize>)
        ensures
            match s {
                Some(i) => self@.holds(*r) && i == r.slot(),
                None => !self@.holds(*r),
            },
    {
        match r {
            Register::X(x) => {
                let i: usize = if 4 <= x.0 && x.0 <= 7 {
                    (x.0 - 4) as usize
                } else if x.0 >= 9 {
                    (x.0 - 5) as usize
                } else {
                    return None;
                };
                if i < self.regular.len() {
                    Some(i)
                } else {
                    None
                }
            },
            Register::F(f) => {
                if f.0 < 1 {
                    return None;
                }
                let i: usize = (f.0 - 1) as usize;
                if i < self.float.len() {
                    Some(i)
                } else {
                    None
                }
            },
        }
    }

    /// The register at a place of a bank.
    fn register(&self, t: Type, i: usize) -> (r: Register)
        requires
            self.wf(),
            i < self@.bank(t).len(),
        ensures
            r == register_at(t, i as int),
            self@.holds(r),
            r.slot() == i,
            r.bank() == t,
    {
        match t {
            Type::T => Register::X(
                Regular(
                    if i < 4 {
                        (i + 4) as u32
                    } else {
                        (i + 5) as u32
                    },
                ),
            ),
            Type::F => Register::F(Float((i + 1) as u32)),
        }
    }

    fn spill_bank(bank: &mut Vec<Entry>, t: Type, out: &mut String)
        requires
            match t {
                Type::T => old(bank)@.len() + 5 <= u32::MAX,
                Type::F => old(bank)@.len() + 1 <= u32::MAX,
            },
        ensures
            final(bank)@ == cleared(old(bank)@.len()),
            final(out)@ == old(out)@ + spill_upto(old(bank)@, t, old(bank)@.len() as int),
    {
        let n = bank.len();
        let ghost text = out@;
        let mut i: usize = 0;
        assert(out@ =~= text + spill_upto(old(bank)@, t, 0));
        while i < n
            invariant
                i <= n,
                n == bank@.len(),
                n == old(bank)@.len(),
                match t {
                    Type::T => n + 5 <= u32::MAX,
                    Type::F => n + 1 <= u32::MAX,
                },
                forall|j: int| 0 <= j < i ==> bank@[j] == Entry::null(),
                forall|j: int| i <= j < n ==> bank@[j] == old(bank)@[j],
                out@ == text + spill_upto(old(bank)@, t, i as int),
            decreases n - i,
        {
            let entry = bank[i];
            let ghost before = out@;
            if entry.dirty {
                let r = match t {
                    Type::T => Register::X(
                        Regular(
                            if i < 4 {
                                (i + 4) as u32
                            } else {
                                (i + 5) as u32
                            },
                        ),
                    ),
                    Type::F => Register::F(Float((i + 1) as u32)),
                };
                push_spill(out, &r, &entry.operand);
            }
            assert(out@ =~= text + spill_upto(old(bank)@, t, i + 1));
            bank.set(i, Entry::new_null());
            i += 1;
        }
        assert(bank@ =~= cleared(old(bank)@.len()));
    }

    /// Spills all registers: stores each that is newer than memory, and empties all.
    pub fn spill_registers(&mut self) -> (out: String)
        requires
            old(self).wf(),
        ensures
            final(self).wf(),
            final(self)@.clean(),
            (final(self)@, out@) == old(self)@.spill_registers(),
    {
        let mut out = String::new();
        Self::spill_bank(&mut self.regular, Type::T, &mut out);
        Self::spill_bank(&mut self.float, Type::F, &mut out);
        assert(out@ =~= old(self)@.spill_registers().1);
        out
    }

    /// The first register of a bank that holds the operand.
    fn resident(&self, op: &Operand) -> (r: Option<usize>)
        ensures
            match r {
                Some(i) => first_wanted(self@.bank(op.otype), Want::Hit(*op), 0) == Some(i as int)
                    && i < self@.bank(op.otype).len(),
                None => first_wanted(self@.bank(op.otype), Want::Hit(*op), 0) is None,
            },
    {
        let bank = match op.otype {
            Type::T => &self.regular,
            Type::F => &self.float,
        };
        let mut i: usize = 0;
        while i < bank.len()
            invariant
                i <= bank@.len(),
                bank@ == self@.bank(op.otype),
                first_wanted(bank@, Want::Hit(*op), 0) == first_wanted(
                    bank@,
                    Want::Hit(*op),
                    i as int,
                ),
            decreases bank@.len() - i,
        {
            if bank[i].operand == *op {
                return Some(i);
            }
            i += 1;
        }
        None
    }

    /// Brings an operand into a register, loading it where no register holds it.
    pub fn ensure(&mut self, op: &Operand, set: &LiveSet, code: &mut String) -> (r: Register)
        requires
            old(self).wf(),
        ensures
            final(self).wf(),
            (final(self)@, r) == (
                old(self)@.ensure(*op, set@).0,
                old(self)@.ensure(*op, set@).1,
            ),
            final(code)@ == old(code)@ + old(self)@.ensure(*op, set@).2,
    {
        if let Variant::Str(a) = op.variant {
            code.append("LA x3, 0x");
            push_hex_word(code, a);
            code.append("\n");
            assert(final(code)@ =~= old(code)@ + old(self)@.ensure(*op, set@).2);
            return Register::X(Regular(3));
        }
        match self.resident(op) {
            Some(i) => {
                assert(code@ =~= old(code)@ + Seq::<char>::empty());
                self.register(op.otype, i)
            },
            None => {
                let r = self.allocate(op, set, code);
                if op.is_variable() {
                    push_load(code, &r, op);
                    assert(code@ =~= old(code)@ + old(self)@.ensure(*op, set@).2);
                    r
                } else {
                    match op.otype {
                        Type::T => Register::X(Regular(99)),
                        Type::F => Register::F(Float(99)),
                    }
                }
            },
        }
    }

    /// Claims a register for an operand.
    pub fn allocate(&mut self, op: &Operand, set: &LiveSet, code: &mut String) -> (r: Register)
        requires
            old(self).wf(),
        ensures
            final(self).wf(),
            (final(self)@, r) == (
                old(self)@.allocate(*op, set@).0,
                old(self)@.allocate(*op, set@).1,
            ),
            final(code)@ == old(code)@ + old(self)@.allocate(*op, set@).2,
            final(self)@.holds(r),
    {
        let reg = self.choose_register(*op);
        self.free(&reg, set, code);
        let entry = Entry { operand: *op, dirty: false };
        match reg {
            Register::X(_) => {
                let i = self.slot(&reg).unwrap();
                self.regular.set(i, entry);
            },
            Register::F(_) => {
                let i = self.slot(&reg).unwrap();
                self.float.set(i, entry);
            },
        }
        reg
    }

    fn choose_register(&self, operand: Operand) -> (r: Register)
        requires
            self.wf(),
        ensures
            r == self@.choose_register(operand),
            self@.holds(r),
            r.bank() == operand.otype,
    {
        let bank = match operand.otype {
            Type::T => &self.regular,
            Type::F => &self.float,
        };
        let mut null_at: Option<usize> = None;
        let mut clean_at: Option<usize> = None;
        let mut i: usize = 0;
        while i < bank.len()
            invariant
                i <= bank@.len(),
                bank@ == self@.bank(operand.otype),
                self.wf(),
                first_wanted(bank@, Want::Hit(operand), 0) == first_wanted(
                    bank@,
                    Want::Hit(operand),
                    i as int,
                ),
                match null_at {
                    Some(k) => first_wanted(bank@, Want::Null, 0) == Some(k as int) && k < i,
                    None => first_wanted(bank@, Want::Null, 0) == first_wanted(
                        bank@,
                        Want::Null,
                        i as int,
                    ),
                },
                match clean_at {
                    Some(k) => first_wanted(bank@, Want::Clean, 0) == Some(k as int) && k < i,
                    None => first_wanted(bank@, Want::Clean, 0) == first_wanted(
                        bank@,
                        Want::Clean,
                        i as int,
                    ),
                },
            decreases bank@.len() - i,
        {
            let entry = bank[i];
            if entry.operand == operand {
                return self.register(operand.otype, i);
            }
            if null_at.is_none() && entry.is_null() {
                null_at = Some(i);
            }
            if clean_at.is_none() && !entry.dirty {
                clean_at = Some(i);
            }
            i += 1;
        }
        let chosen = match null_at {
            Some(k) => k,
            None => match clean_at {
                Some(k) => k,
                None => 0,
            },
        };
        self.register(operand.otype, chosen)
    }

    /// Frees a register, storing it where it is newer than memory and its operand is live.
    pub fn free(&mut self, r: &Register, set: &LiveSet, code: &mut String)
        requires
            old(self).wf(),
        ensures
            final(self).wf(),
            final(self)@ == old(self)@.free(*r, set@).0,
            final(code)@ == old(code)@ + old(self)@.free(*r, set@).1,
    {
        match self.slot(r) {
            Some(i) => {
                let entry = match r {
                    Register::X(_) => self.regular[i],
                    Register::F(_) => self.float[i],
                };
                if entry.dirty && set.contains(&entry.operand) {
                    push_spill(code, r, &entry.operand);
                } else {
                    assert(code@ =~= old(code)@ + Seq::<char>::empty());
                }
                match r {
                    Register::X(_) => self.regular.set(i, Entry::new_null()),
                    Register::F(_) => self.float.set(i, Entry::new_null()),
                }
            },
            None => {
                assert(code@ =~= old(code)@ + Seq::<char>::empty());
            },
        }
    }

    /// Marks a register as written, and spills every other register whose operand has a home in memory.
    pub fn mark_dirty(&mut self, r: &Register, code: &mut String)
        requires
            old(self).wf(),
        ensures
            final(self).wf(),
            final(self)@ == old(self)@.mark_dirty(*r).0,
            final(code)@ == old(code)@ + old(self)@.mark_dirty(*r).1,
    {
        match self.slot(r) {
            Some(i) => {
                match r {
                    Register::X(_) => {
                        let mut entry = self.regular[i];
                        entry.dirty();
                        self.regular.set(i, entry);
                    },
                    Register::F(_) => {
                        let mut entry = self.float[i];
                        entry.dirty();
                        self.float.set(i, entry);
                    },
                }
            },
            None => {},
        }
        let out = self.spill_aliased_registers(r);
        code.append(out.as_str());
    }

    fn alias_bank(bank: &mut Vec<Entry>, t: Type, keep: Option<usize>, out: &mut String)
        requires
            match t {
                Type::T => old(bank)@.len() + 5 <= u32::MAX,
                Type::F => old(bank)@.len() + 1 <= u32::MAX,
            },
        ensures
            final(bank)@ == alias_cleared(
                old(bank)@,
                match keep {
                    Some(k) => k as int,
                    None => -1,
                },
            ),
            final(out)@ == old(out)@ + alias_upto(
                old(bank)@,
                t,
                match keep {
                    Some(k) => k as int,
                    None => -1,
                },
                old(bank)@.len() as int,
            ),
    {
        let n = bank.len();
        let ghost text = out@;
        let ghost skip: int = match keep {
            Some(k) => k as int,
            None => -1,
        };
        let mut i: usize = 0;
        assert(out@ =~= text + alias_upto(old(bank)@, t, skip, 0));
        while i < n
            invariant
                i <= n,
                n == bank@.len(),
                n == old(bank)@.len(),
                skip == match keep {
                    Some(k) => k as int,
                    None => -1,
                },
                match t {
                    Type::T => n + 5 <= u32::MAX,
                    Type::F => n + 1 <= u32::MAX,
                },
                forall|j: int| 0 <= j < i ==> bank@[j] == alias_cleared(old(bank)@, skip)[j],
                forall|j: int| i <= j < n ==> bank@[j] == old(bank)@[j],
                out@ == text + alias_upto(old(bank)@, t, skip, i as int),
            decreases n - i,
        {
            let entry = bank[i];
            let passed = match keep {
                Some(k) => k == i,
                None => false,
            };
            if !passed && entry.operand.is_variable() {
                if entry.dirty {
                    let r = match t {
                        Type::T => Register::X(
                            Regular(
                                if i < 4 {
                                    (i + 4) as u32
                                } else {
                                    (i + 5) as u32
                                },
                            ),
                        ),
                        Type::F => Register::F(Float((i + 1) as u32)),
                    };
                    push_spill(out, &r, &entry.operand);
                }
                bank.set(i, Entry::new_null());
            }
            assert(out@ =~= text + alias_upto(old(bank)@, t, skip, i + 1));
            i += 1;
        }
        assert(bank@ =~= alias_cleared(old(bank)@, skip));
    }

    /// Spills aliases after a write to `written`.
    fn spill_aliased_registers(&mut self, written: &Register) -> (out: String)
        requires
            old(self).wf(),
        ensures
            final(self).wf(),
            final(self)@ == (RegTableView {
                regular: alias_cleared(old(self)@.regular, old(self)@.kept(*written, Type::T)),
                float: alias_cleared(old(self)@.float, old(self)@.kept(*written, Type::F)),
            }),
            out@ == alias_upto(
                old(self)@.regular,
                Type::T,
                old(self)@.kept(*written, Type::T),
                old(self)@.regular.len() as int,
            ) + alias_upto(
                old(self)@.float,
                Type::F,
                old(self)@.kept(*written, Type::F),
                old(self)@.float.len() as int,
            ),
    {
        let mut out = String::new();
        let (keep_x, keep_f) = match written {
            Register::X(x) => (
                if 4 <= x.0 && x.0 <= 7 {
                    Some((x.0 - 4) as usize)
                } else if x.0 >= 9 {
                    Some((x.0 - 5) as usize)
                } else {
                    None
                },
                None,
            ),
            Register::F(f) => (
                None,
                if f.0 >= 1 {
                    Some((f.0 - 1) as usize)
                } else {
                    None
                },
            ),
        };
        Self::alias_bank(&mut self.regular, Type::T, keep_x, &mut out);
        Self::alias_bank(&mut self.float, Type::F, keep_f, &mut out);
        assert(out@ =~= alias_upto(
            old(self)@.regular,
            Type::T,
            old(self)@.kept(*written, Type::T),
            old(self)@.regular.len() as int,
        ) + alias_upto(
            old(self)@.float,
            Type::F,
            old(self)@.kept(*written, Type::F),
            old(self)@.float.len() as int,
        ));
        out
    }
}

/// The lines of a listing for the first `n` registers of a bank: one line
/// for each register that holds an operand, with the register's name and
/// the operand.
pub open spec fn held_upto(bank: Seq<Entry>, t: Type, n: int) -> Seq<char>
    decreases n,
{
    if n <= 0 {
        Seq::empty()
    } else {
        held_upto(bank, t, n - 1) + if bank[n - 1].operand.variant is Null {
            Seq::empty()
        } else {
            register_at(t, n - 1).text() + ": "@ + bank[n - 1].operand.text() + "\n"@
        }
    }
}

impl RegTable {
    fn push_held(&self, t: Type, out: &mut String)
        requires
            self.wf(),
        ensures
            final(out)@ == old(out)@ + held_upto(
                self@.bank(t),
                t,
                self@.bank(t).len() as int,
            ),
    {
        let bank = match t {
            Type::T => &self.regular,
            Type::F => &self.float,
        };
        let ghost text = out@;
        let mut i: usize = 0;
        assert(out@ =~= text + held_upto(bank@, t, 0));
        while i < bank.len()
            invariant
                self.wf(),
                i <= bank@.len(),
                bank@ == self@.bank(t),
                out@ == text + held_upto(bank@, t, i as int),
            decreases bank@.len() - i,
        {
            let entry = bank[i];
            if !entry.is_null() {
                let r = self.register(t, i);
                r.push_to(out);
                out.append(": ");
                entry.operand.push_to(out);
                out.append("\n");
            }
            assert(out@ =~= text + held_upto(bank@, t, i + 1));
            i += 1;
        }
    }

    /// What the registers hold, as a listing: the integer bank, then the
    /// float bank.
    pub fn to_text(&self) -> (out: String)
        requires
            self.wf(),
        ensures
            out@ == held_upto(self@.regular, Type::T, self@.regular.len() as int) + held_upto(
                self@.float,
                Type::F,
                self@.float.len() as int,
            ),
    {
        let mut out = String::new();
        self.push_held(Type::T, &mut out);
        self.push_held(Type::F, &mut out);
        assert(out@ =~= held_upto(self@.regular, Type::T, self@.regular.len() as int) + held_upto(
            self@.float,
            Type::F,
            self@.float.len() as int,
        ));
        out
    }
}

} // verus!
