use super::label::Label;
use super::operand;
use super::operand::Operand;
use crate::text::dec_int;
use crate::text::push_int;
use vstd::prelude::*;

verus! {

/// One three-address instruction: what it does, the register bank it works
/// in, and its operands: a destination or target, and two sources.
#[derive(Debug, PartialEq, Eq)]
pub struct Instruction {
    pub variant: Variant,
    pub set: Bank,
    pub opdt: Operand,
    pub opm: Operand,
    pub opn: Operand,
}

#[derive(Debug, PartialEq, Eq)]
pub enum Variant {
    HeaderText(Label),
    HeaderStrings(String),
    AddrAssign,
    Assign,
    Free,
    Get,
    Malloc,
    Put,
    PutS,
    Ret,
    Save,
    Load(String),
    Address,
    Dereference,
    Reference,
    Plus,
    Minus,
    Times,
    Divide,
    Negate,
    Cast,
    Equal(Label),
    NotEqual(Label),
    Less(Label),
    LessEqual(Label),
    Greater(Label),
    GreaterEqual(Label),
    Label(Label),
    Jump(Label),
    Call(Label, Vec<Operand>),
    Alloc(u32),
    SpillRegisters,
}

/// The register bank that an instruction works in.
#[derive(Clone, Copy, Debug, PartialEq, Eq, Structural)]
pub enum Bank {
    T,
    F,
}

pub enum VariantView {
    HeaderText(Label),
    HeaderStrings(Seq<char>),
    AddrAssign,
    Assign,
    Free,
    Get,
    Malloc,
    Put,
    PutS,
    Ret,
    Save,
    Load(Seq<char>),
    Address,
    Dereference,
    Reference,
    Plus,
    Minus,
    Times,
    Divide,
    Negate,
    Cast,
    Equal(Label),
    NotEqual(Label),
    Less(Label),
    LessEqual(Label),
    Greater(Label),
    GreaterEqual(Label),
    Label(Label),
    Jump(Label),
    Call(Label, Seq<Operand>),
    Alloc(u32),
    SpillRegisters,
}

pub struct InstructionView {
    pub variant: VariantView,
    pub set: Bank,
    pub opdt: Operand,
    pub opm: Operand,
    pub opn: Operand,
}

impl View for Variant {
    type V = VariantView;

    open spec fn view(&self) -> VariantView {
        match self {
            Variant::HeaderText(l) => VariantView::HeaderText(*l),
            Variant::HeaderStrings(s) => VariantView::HeaderStrings(s@),
            Variant::AddrAssign => VariantView::AddrAssign,
            Variant::Assign => VariantView::Assign,
            Variant::Free => VariantView::Free,
            Variant::Get => VariantView::Get,
            Variant::Malloc => VariantView::Malloc,
            Variant::Put => VariantView::Put,
            Variant::PutS => VariantView::PutS,
            Variant::Ret => VariantView::Ret,
            Variant::Save => VariantView::Save,
            Variant::Load(s) => VariantView::Load(s@),
            Variant::Address => VariantView::Address,
            Variant::Dereference => VariantView::Dereference,
            Variant::Reference => VariantView::Reference,
            Variant::Plus => VariantView::Plus,
            Variant::Minus => VariantView::Minus,
            Variant::Times => VariantView::Times,
            Variant::Divide => VariantView::Divide,
            Variant::Negate => VariantView::Negate,
            Variant::Cast => VariantView::Cast,
            Variant::Equal(l) => VariantView::Equal(*l),
            Variant::NotEqual(l) => VariantView::NotEqual(*l),
            Variant::Less(l) => VariantView::Less(*l),
            Variant::LessEqual(l) => VariantView::LessEqual(*l),
            Variant::Greater(l) => VariantView::Greater(*l),
            Variant::GreaterEqual(l) => VariantView::GreaterEqual(*l),
            Variant::Label(l) => VariantView::Label(*l),
            Variant::Jump(l) => VariantView::Jump(*l),
            Variant::Call(l, args) => VariantView::Call(*l, args@),
            Variant::Alloc(n) => VariantView::Alloc(*n),
            Variant::SpillRegisters => VariantView::SpillRegisters,
        }
    }
}

impl View for Instruction {
    type V = InstructionView;

    open spec fn view(&self) -> InstructionView {
        InstructionView {
            variant: self.variant@,
            set: self.set,
            opdt: self.opdt,
            opm: self.opm,
            opn: self.opn,
        }
    }
}

impl VariantView {
    /// Whether the instruction compares two operands and branches.
    pub open spec fn is_compare(self) -> bool {
        self is Equal || self is NotEqual || self is Less || self is LessEqual || self is Greater
            || self is GreaterEqual
    }

    /// The label that a comparison branches to, a jump jumps to, a call
    /// calls, a label marks or the text header enters at.
    pub open spec fn target(self) -> Option<Label> {
        match self {
            VariantView::HeaderText(l) => Some(l),
            VariantView::Equal(l) => Some(l),
            VariantView::NotEqual(l) => Some(l),
            VariantView::Less(l) => Some(l),
            VariantView::LessEqual(l) => Some(l),
            VariantView::Greater(l) => Some(l),
            VariantView::GreaterEqual(l) => Some(l),
            VariantView::Label(l) => Some(l),
            VariantView::Jump(l) => Some(l),
            VariantView::Call(l, _) => Some(l),
            _ => None,
        }
    }
}

impl InstructionView {
    /// An instruction in bank `T` with operands as given.
    pub open spec fn new(variant: VariantView, set: Bank, opdt: Operand, opm: Operand) -> InstructionView {
        InstructionView { variant, set, opdt, opm, opn: Operand::null() }
    }

    /// An instruction without operands.
    pub open spec fn bare(variant: VariantView) -> InstructionView {
        InstructionView::new(variant, Bank::T, Operand::null(), Operand::null())
    }
}

impl Clone for Variant {
    fn clone(&self) -> (res: Self)
        ensures
            res@ == self@,
    {
        match self {
            Variant::HeaderText(l) => Variant::HeaderText(*l),
            Variant::HeaderStrings(s) => Variant::HeaderStrings(s.clone()),
            Variant::AddrAssign => Variant::AddrAssign,
            Variant::Assign => Variant::Assign,
            Variant::Free => Variant::Free,
            Variant::Get => Variant::Get,
            Variant::Malloc => Variant::Malloc,
            Variant::Put => Variant::Put,
            Variant::PutS => Variant::PutS,
            Variant::Ret => Variant::Ret,
            Variant::Save => Variant::Save,
            Variant::Load(s) => Variant::Load(s.clone()),
            Variant::Address => Variant::Address,
            Variant::Dereference => Variant::Dereference,
            Variant::Reference => Variant::Reference,
            Variant::Plus => Variant::Plus,
            Variant::Minus => Variant::Minus,
            Variant::Times => Variant::Times,
            Variant::Divide => Variant::Divide,
            Variant::Negate => Variant::Negate,
            Variant::Cast => Variant::Cast,
            Variant::Equal(l) => Variant::Equal(*l),
            Variant::NotEqual(l) => Variant::NotEqual(*l),
            Variant::Less(l) => Variant::Less(*l),
            Variant::LessEqual(l) => Variant::LessEqual(*l),
            Variant::Greater(l) => Variant::Greater(*l),
            Variant::GreaterEqual(l) => Variant::GreaterEqual(*l),
            Variant::Label(l) => Variant::Label(*l),
            Variant::Jump(l) => Variant::Jump(*l),
            Variant::Call(l, args) => {
                let mut out: Vec<Operand> = Vec::new();
                let mut i: usize = 0;
                while i < args.len()
                    invariant
                        i <= args@.len(),
                        out@ == args@.subrange(0, i as int),
                    decreases args@.len() - i,
                {
                    out.push(args[i]);
                    assert(out@ =~= args@.subrange(0, i + 1));
                    i += 1;
                }
                assert(out@ =~= args@);
                Variant::Call(*l, out)
            },
            Variant::Alloc(n) => Variant::Alloc(*n),
            Variant::SpillRegisters => Variant::SpillRegisters,
        }
    }
}

impl Clone for Instruction {
    fn clone(&self) -> (res: Self)
        ensures
            res@ == self@,
    {
        Instruction {
            variant: self.variant.clone(),
            set: self.set,
            opdt: self.opdt,
            opm: self.opm,
            opn: self.opn,
        }
    }
}

impl Instruction {
    /// The header of the text section, which enters the program at `label`.
    pub fn header_text(label: Label) -> (r: Instruction)
        ensures
            r@ == InstructionView::bare(VariantView::HeaderText(label)),
    {
        Instruction {
            variant: Variant::HeaderText(label),
            set: Bank::T,
            opdt: Operand::new_null(),
            opm: Operand::new_null(),
            opn: Operand::new_null(),
        }
    }

    /// The header of the string section, with the string table.
    pub fn header_strings(strs: String) -> (r: Instruction)
        ensures
            r@ == InstructionView::bare(VariantView::HeaderStrings(strs@)),
    {
        Instruction {
            variant: Variant::HeaderStrings(strs),
            set: Bank::T,
            opdt: Operand::new_null(),
            opm: Operand::new_null(),
            opn: Operand::new_null(),
        }
    }

    /// Stores `opm` to the memory that `opdt` addresses.
    pub fn addr_assign(set: Bank, opdt: Operand, opm: Operand) -> (r: Instruction)
        ensures
            r@ == InstructionView::new(VariantView::AddrAssign, set, opdt, opm),
    {
        Instruction { variant: Variant::AddrAssign, set, opdt, opm, opn: Operand::new_null() }
    }

    /// Copies `opm` to `opdt`.
    pub fn assign(set: Bank, opdt: Operand, opm: Operand) -> (r: Instruction)
        ensures
            r@ == InstructionView::new(VariantView::Assign, set, opdt, opm),
    {
        Instruction { variant: Variant::Assign, set, opdt, opm, opn: Operand::new_null() }
    }

    /// Frees the memory that `opdt` points to.
    pub fn free(opdt: Operand) -> (r: Instruction)
        ensures
            r@ == InstructionView::new(VariantView::Free, Bank::T, opdt, Operand::null()),
    {
        Instruction {
            variant: Variant::Free,
            set: Bank::T,
            opdt,
            opm: Operand::new_null(),
            opn: Operand::new_null(),
        }
    }

    /// Reads a value from input into `opdt`.
    pub fn get(set: Bank, opdt: Operand) -> (r: Instruction)
        ensures
            r@ == InstructionView::new(VariantView::Get, set, opdt, Operand::null()),
    {
        Instruction {
            variant: Variant::Get,
            set,
            opdt,
            opm: Operand::new_null(),
            opn: Operand::new_null(),
        }
    }

    /// Allocates `opm` bytes and puts their address into `opdt`.
    pub fn malloc(opdt: Operand, opm: Operand) -> (r: Instruction)
        ensures
            r@ == InstructionView::new(VariantView::Malloc, Bank::T, opdt, opm),
    {
        Instruction { variant: Variant::Malloc, set: Bank::T, opdt, opm, opn: Operand::new_null() }
    }

    /// Prints a value; `string_variant` tells that it is a string.
    pub fn put(set: Bank, opdt: Operand, string_variant: bool) -> (r: Instruction)
        ensures
            r@ == InstructionView::new(
                if string_variant {
                    VariantView::PutS
                } else {
                    VariantView::Put
                },
                set,
                opdt,
                Operand::null(),
            ),
    {
        Instruction {
            variant: if string_variant {
                Variant::PutS
            } else {
                Variant::Put
            },
            set,
            opdt,
            opm: Operand::new_null(),
            opn: Operand::new_null(),
        }
    }

    /// Returns from the function.
    pub fn ret() -> (r: Instruction)
        ensures
            r@ == InstructionView::bare(VariantView::Ret),
    {
        Instruction {
            variant: Variant::Ret,
            set: Bank::T,
            opdt: Operand::new_null(),
            opm: Operand::new_null(),
            opn: Operand::new_null(),
        }
    }

    /// Stores `opdt` to the return slot of the frame.
    pub fn save(set: Bank, opdt: Operand) -> (r: Instruction)
        ensures
            r@ == InstructionView::new(VariantView::Save, set, opdt, Operand::null()),
    {
        Instruction {
            variant: Variant::Save,
            set,
            opdt,
            opm: Operand::new_null(),
            opn: Operand::new_null(),
        }
    }

    /// Loads the literal `lit` into `opdt`.
    pub fn load(set: Bank, opdt: Operand, lit: String) -> (r: Instruction)
        ensures
            r@ == InstructionView::new(VariantView::Load(lit@), set, opdt, Operand::null()),
    {
        Instruction {
            variant: Variant::Load(lit),
            set,
            opdt,
            opm: Operand::new_null(),
            opn: Operand::new_null(),
        }
    }

    /// Loads into `opdt` the address that the target `opm` stands for.
    pub fn address(opdt: Operand, opm: Operand) -> (r: Instruction)
        ensures
            r@ == InstructionView::new(VariantView::Address, Bank::T, opdt, opm),
    {
        Instruction { variant: Variant::Address, set: Bank::T, opdt, opm, opn: Operand::new_null() }
    }

    /// Loads into `opdt` what `opm` points to.
    pub fn dereference(set: Bank, opdt: Operand, opm: Operand) -> (r: Instruction)
        ensures
            r@ == InstructionView::new(VariantView::Dereference, set, opdt, opm),
    {
        Instruction { variant: Variant::Dereference, set, opdt, opm, opn: Operand::new_null() }
    }

    /// Puts the address of `opm` into `opdt`.
    pub fn reference(opdt: Operand, opm: Operand) -> (r: Instruction)
        ensures
            r@ == InstructionView::new(VariantView::Reference, Bank::T, opdt, opm),
    {
        Instruction {
            variant: Variant::Reference,
            set: Bank::T,
            opdt,
            opm,
            opn: Operand::new_null(),
        }
    }

    /// Negates `opm` into `opdt`.
    pub fn negate(set: Bank, opdt: Operand, opm: Operand) -> (r: Instruction)
        ensures
            r@ == InstructionView::new(VariantView::Negate, set, opdt, opm),
    {
        Instruction { variant: Variant::Negate, set, opdt, opm, opn: Operand::new_null() }
    }

    /// Converts `opm` into `opdt`, to the bank `set`.
    pub fn cast(set: Bank, opdt: Operand, opm: Operand) -> (r: Instruction)
        ensures
            r@ == InstructionView::new(VariantView::Cast, set, opdt, opm),
    {
        Instruction { variant: Variant::Cast, set, opdt, opm, opn: Operand::new_null() }
    }

    /// Marks `label`.
    pub fn label(label: Label) -> (r: Instruction)
        ensures
            r@ == InstructionView::bare(VariantView::Label(label)),
    {
        Instruction {
            variant: Variant::Label(label),
            set: Bank::T,
            opdt: Operand::new_null(),
            opm: Operand::new_null(),
            opn: Operand::new_null(),
        }
    }

    /// Jumps to `label`.
    pub fn jump(label: Label) -> (r: Instruction)
        ensures
            r@ == InstructionView::bare(VariantView::Jump(label)),
    {
        Instruction {
            variant: Variant::Jump(label),
            set: Bank::T,
            opdt: Operand::new_null(),
            opm: Operand::new_null(),
            opn: Operand::new_null(),
        }
    }

    /// Calls the function at `label` with `args`; its result goes to `opdt`.
    pub fn call(label: Label, args: Vec<Operand>, set: Bank, opdt: Operand) -> (r: Instruction)
        ensures
            r@ == InstructionView::new(VariantView::Call(label, args@), set, opdt, Operand::null()),
    {
        Instruction {
            variant: Variant::Call(label, args),
            set,
            opdt,
            opm: Operand::new_null(),
            opn: Operand::new_null(),
        }
    }

    /// Makes room on the stack for locals that reach `bytes` below the frame
    /// pointer: the size is the magnitude of the offset.
    pub fn alloc_frame(bytes: i32) -> (r: Instruction)
        ensures
            r@ == InstructionView::bare(
                VariantView::Alloc(
                    if bytes < 0 {
                        (-bytes) as u32
                    } else {
                        bytes as u32
                    },
                ),
            ),
    {
        let size: u32 = if bytes < 0 {
            (-(bytes as i64)) as u32
        } else {
            bytes as u32
        };
        Instruction {
            variant: Variant::Alloc(size),
            set: Bank::T,
            opdt: Operand::new_null(),
            opm: Operand::new_null(),
            opn: Operand::new_null(),
        }
    }

    /// Spills all registers.
    pub fn spill_registers() -> (r: Instruction)
        ensures
            r@ == InstructionView::bare(VariantView::SpillRegisters),
    {
        Instruction {
            variant: Variant::SpillRegisters,
            set: Bank::T,
            opdt: Operand::new_null(),
            opm: Operand::new_null(),
            opn: Operand::new_null(),
        }
    }
}

/// The first `k` arguments of a call as a listing shows them: separated
/// by commas, where anything was shown before.
pub open spec fn arguments_text(args: Seq<Operand>, k: int) -> Seq<char>
    decreases k,
{
    if k <= 0 {
        Seq::empty()
    } else {
        let shown = arguments_text(args, k - 1);
        if shown.len() == 0 {
            args[k - 1].text()
        } else {
            shown + ", "@ + args[k - 1].text()
        }
    }
}

/// The sign of an arithmetic instruction or a comparison in a listing.
pub open spec fn sign(v: VariantView) -> Seq<char> {
    match v {
        VariantView::Plus => " + "@,
        VariantView::Minus => " - "@,
        VariantView::Times => " * "@,
        VariantView::Divide => " / "@,
        VariantView::Equal(_) => " == "@,
        VariantView::NotEqual(_) => " != "@,
        VariantView::Less(_) => " < "@,
        VariantView::LessEqual(_) => " <= "@,
        VariantView::Greater(_) => " > "@,
        _ => " >= "@,
    }
}

impl InstructionView {
    /// The line of the instruction in a listing of three-address code; the
    /// string table follows its header as it is.
    pub open spec fn text(self) -> Seq<char> {
        let d = self.opdt.text();
        let m = self.opm.text();
        let n = self.opn.text();
        match self.variant {
            VariantView::HeaderText(l) => "HEADER TEXT | JR "@ + l.text() + "\n"@,
            VariantView::HeaderStrings(s) => "HEADER STRINGS\n"@ + s,
            VariantView::AddrAssign => d + " <= "@ + m + "\n"@,
            VariantView::Assign => d + " = "@ + m + "\n"@,
            VariantView::Free => "FREE "@ + d + "\n"@,
            VariantView::Get => "GET "@ + d + "\n"@,
            VariantView::Malloc => d + " = MALLOC "@ + m + "\n"@,
            VariantView::Put | VariantView::PutS => "PUT "@ + d + "\n"@,
            VariantView::Ret => "RET\n"@,
            VariantView::Save => "Save "@ + d + "\n"@,
            VariantView::Load(v) => d + " := "@ + v + "\n"@,
            VariantView::Address => d + " = %["@ + m + "]\n"@,
            VariantView::Dereference => d + " = *["@ + m + "]\n"@,
            VariantView::Reference => d + " = &["@ + m + "]\n"@,
            VariantView::Plus
            | VariantView::Minus
            | VariantView::Times
            | VariantView::Divide => d + " = "@ + m + sign(self.variant) + n + "\n"@,
            VariantView::Negate => d + " = NEG "@ + m + "\n"@,
            VariantView::Cast => d + " = CAST "@ + m + "\n"@,
            VariantView::Equal(l)
            | VariantView::NotEqual(l)
            | VariantView::Less(l)
            | VariantView::LessEqual(l)
            | VariantView::Greater(l)
            | VariantView::GreaterEqual(l) => m + sign(self.variant) + n + " ? else J "@ + l.text()
                + "\n"@,
            VariantView::Label(l) => l.text() + ":\n"@,
            VariantView::Jump(l) => "J "@ + l.text() + "\n"@,
            VariantView::Call(l, args) => if self.opdt.variant is Null {
                l.text() + "("@ + arguments_text(args, args.len() as int) + ")\n"@
            } else {
                d + " = "@ + l.text() + "("@ + arguments_text(args, args.len() as int) + ")\n"@
            },
            VariantView::Alloc(u) => "ALLOC "@ + dec_int(u as int) + "\n"@,
            VariantView::SpillRegisters => "SPILL REGISTERS\n"@,
        }
    }
}

fn push_arguments(s: &mut String, args: &Vec<Operand>)
    ensures
        final(s)@ == old(s)@ + arguments_text(args@, args@.len() as int),
{
    let mut shown = String::new();
    let mut k: usize = 0;
    assert(shown@ =~= arguments_text(args@, 0));
    while k < args.len()
        invariant
            k <= args@.len(),
            shown@ == arguments_text(args@, k as int),
        decreases args@.len() - k,
    {
        let ghost before = shown@;
        if shown.as_str().unicode_len() == 0 {
            args[k].push_to(&mut shown);
            assert(shown@ =~= args@[k as int].text());
        } else {
            shown.append(", ");
            args[k].push_to(&mut shown);
        }
        k += 1;
    }
    s.append(shown.as_str());
}

/// Appends `a`, `mid`, `b` and `end`.
fn push_two(s: &mut String, a: &str, mid: &str, b: &str, end: &str)
    ensures
        final(s)@ == old(s)@ + (a@ + mid@ + b@ + end@),
{
    s.append(a);
    s.append(mid);
    s.append(b);
    s.append(end);
    assert(final(s)@ =~= old(s)@ + (a@ + mid@ + b@ + end@));
}

/// Appends `a`, `mid`, `b`, `sign`, `c` and `end`.
fn push_three(s: &mut String, a: &str, mid: &str, b: &str, sign: &str, c: &str, end: &str)
    ensures
        final(s)@ == old(s)@ + (a@ + mid@ + b@ + sign@ + c@ + end@),
{
    s.append(a);
    s.append(mid);
    s.append(b);
    s.append(sign);
    s.append(c);
    s.append(end);
    assert(final(s)@ =~= old(s)@ + (a@ + mid@ + b@ + sign@ + c@ + end@));
}

fn sign_of(v: &Variant) -> (s: &'static str)
    ensures
        s@ == sign(v@),
{
    match v {
        Variant::Plus => " + ",
        Variant::Minus => " - ",
        Variant::Times => " * ",
        Variant::Divide => " / ",
        Variant::Equal(_) => " == ",
        Variant::NotEqual(_) => " != ",
        Variant::Less(_) => " < ",
        Variant::LessEqual(_) => " <= ",
        Variant::Greater(_) => " > ",
        _ => " >= ",
    }
}

impl Instruction {
    fn push_plain(&self, s: &mut String)
        requires
            !(self@.variant is Call) && !(self@.variant is HeaderStrings) && !(self@.variant is Load)
                && !(self@.variant is Alloc),
        ensures
            final(s)@ == old(s)@ + self@.text(),
    {
        let d = self.opdt.to_text();
        let m = self.opm.to_text();
        let n = self.opn.to_text();
        let d = d.as_str();
        let m = m.as_str();
        let n = n.as_str();
        match &self.variant {
            Variant::HeaderText(l) => {
                let t = l.to_text();
                push_two(s, "HEADER TEXT | JR ", t.as_str(), "\n", "");
                assert("HEADER TEXT | JR "@ + t@ + "\n"@ + ""@ =~= "HEADER TEXT | JR "@ + t@ + "\n"@)
                    by {
                    reveal_strlit("");
                }
            },
            Variant::AddrAssign => push_two(s, d, " <= ", m, "\n"),
            Variant::Assign => push_two(s, d, " = ", m, "\n"),
            Variant::Free => {
                push_two(s, "FREE ", d, "\n", "");
                assert("FREE "@ + d@ + "\n"@ + ""@ =~= "FREE "@ + d@ + "\n"@) by {
                    reveal_strlit("");
                }
            },
            Variant::Get => {
                push_two(s, "GET ", d, "\n", "");
                assert("GET "@ + d@ + "\n"@ + ""@ =~= "GET "@ + d@ + "\n"@) by {
                    reveal_strlit("");
                }
            },
            Variant::Malloc => push_two(s, d, " = MALLOC ", m, "\n"),
            Variant::Put | Variant::PutS => {
                push_two(s, "PUT ", d, "\n", "");
                assert("PUT "@ + d@ + "\n"@ + ""@ =~= "PUT "@ + d@ + "\n"@) by {
                    reveal_strlit("");
                }
            },
            Variant::Ret => {
                s.append("RET\n");
            },
            Variant::Save => {
                push_two(s, "Save ", d, "\n", "");
                assert("Save "@ + d@ + "\n"@ + ""@ =~= "Save "@ + d@ + "\n"@) by {
                    reveal_strlit("");
                }
            },
            Variant::Address => push_two(s, d, " = %[", m, "]\n"),
            Variant::Dereference => push_two(s, d, " = *[", m, "]\n"),
            Variant::Reference => push_two(s, d, " = &[", m, "]\n"),
            Variant::Plus | Variant::Minus | Variant::Times | Variant::Divide => push_three(
                s,
                d,
                " = ",
                m,
                sign_of(&self.variant),
                n,
                "\n",
            ),
            Variant::Negate => push_two(s, d, " = NEG ", m, "\n"),
            Variant::Cast => push_two(s, d, " = CAST ", m, "\n"),
            Variant::Equal(l)
            | Variant::NotEqual(l)
            | Variant::Less(l)
            | Variant::LessEqual(l)
            | Variant::Greater(l)
            | Variant::GreaterEqual(l) => {
                let t = l.to_text();
                push_three(s, m, sign_of(&self.variant), n, " ? else J ", t.as_str(), "\n");
            },
            Variant::Label(l) => {
                let t = l.to_text();
                push_two(s, t.as_str(), ":\n", "", "");
                assert(t@ + ":\n"@ + ""@ + ""@ =~= t@ + ":\n"@) by {
                    reveal_strlit("");
                }
            },
            Variant::Jump(l) => {
                let t = l.to_text();
                push_two(s, "J ", t.as_str(), "\n", "");
                assert("J "@ + t@ + "\n"@ + ""@ =~= "J "@ + t@ + "\n"@) by {
                    reveal_strlit("");
                }
            },
            Variant::SpillRegisters => {
                s.append("SPILL REGISTERS\n");
            },
            _ => {},
        }
    }

    /// Appends the line of the instruction in a listing.
    pub fn push_to(&self, s: &mut String)
        ensures
            final(s)@ == old(s)@ + self@.text(),
    {
        match &self.variant {
            Variant::HeaderStrings(strs) => {
                s.append("HEADER STRINGS\n");
                s.append(strs.as_str());
                assert(final(s)@ =~= old(s)@ + self@.text());
            },
            Variant::Load(v) => {
                let d = self.opdt.to_text();
                push_two(s, d.as_str(), " := ", v.as_str(), "\n");
            },
            Variant::Call(l, args) => {
                match self.opdt.variant {
                    operand::Variant::Null => {},
                    _ => {
                        self.opdt.push_to(s);
                        s.append(" = ");
                    },
                }
                l.push_to(s);
                s.append("(");
                push_arguments(s, args);
                s.append(")\n");
                assert(final(s)@ =~= old(s)@ + self@.text());
            },
            Variant::Alloc(u) => {
                s.append("ALLOC ");
                push_int(s, *u as i64);
                s.append("\n");
                assert(final(s)@ =~= old(s)@ + self@.text());
            },
            _ => self.push_plain(s),
        }
    }

    /// The line of the instruction in a listing of three-address code.
    pub fn to_text(&self) -> (s: String)
        ensures
            s@ == self@.text(),
    {
        let mut s = String::new();
        self.push_to(&mut s);
        assert(s@ =~= self@.text());
        s
    }
}

} // verus!
