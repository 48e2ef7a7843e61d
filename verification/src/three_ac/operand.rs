use crate::error::plain;
use crate::error::Error;
use crate::error::ErrorKind;
use crate::symtable::entry::EntryView;
use crate::symtable::entry::SymbolTypeView;
use crate::symtable::CType;
use crate::symtable::Entry;
use crate::symtable::SymbolType;
use crate::text::dec_int;
use crate::text::hex_word;
use crate::text::push_hex_word;
use crate::text::push_int;
use vstd::prelude::*;

verus! {

/// What an instruction reads or writes, with the register bank that holds it.
#[derive(Copy, Clone, Debug, PartialEq, Eq, Structural)]
pub struct Operand {
    pub variant: Variant,
    pub otype: Type,
}

#[derive(Copy, Clone, Debug, PartialEq, Eq, Structural)]
pub enum Variant {
    /// A global variable, by its address.
    Global(i32),
    /// A string constant, by the address of its entry in the string table.
    Str(i32),
    /// An argument or a local variable, by its offset in the frame.
    Local(i32),
    /// An integer temporary.
    Temp(u32),
    /// A float temporary.
    TempFloat(u32),
    Null,
}

/// The register bank of an operand: `T` for integers and pointers, `F` for
/// floats.
#[derive(Clone, Copy, Debug, PartialEq, Eq, Structural)]
pub enum Type {
    T,
    F,
}

impl Type {
    /// The bank of a value of a type.
    pub open spec fn of(ctype: CType) -> Type {
        match ctype {
            CType::Float => Type::F,
            _ => Type::T,
        }
    }

    /// The bank of a value of a type. No value has type `Void`.
    pub fn from_ctype(ctype: &CType) -> (t: Type)
        requires
            !(ctype is Void),
        ensures
            t == Type::of(*ctype),
    {
        match ctype {
            CType::Float => Type::F,
            _ => Type::T,
        }
    }
}

impl Operand {
    /// No operand.
    pub open spec fn null() -> Operand {
        Operand { variant: Variant::Null, otype: Type::T }
    }

    /// The operand of a variable: by its address where it is a global or a
    /// string, by its offset where it is an argument or a local. A function
    /// is no operand, and neither is a variable of type `Void`.
    pub open spec fn of_symbol(ctype: CType, symbol: EntryView) -> Result<Operand, ErrorKind> {
        match symbol {
            EntryView::Function { .. } => Err(ErrorKind::ThreeAC),
            EntryView::Symbol { address, symtype, .. } => if ctype is Void {
                Err(ErrorKind::Type)
            } else {
                Ok(
                    Operand {
                        variant: match symtype {
                            SymbolTypeView::Global => Variant::Global(address),
                            SymbolTypeView::Str(_) => Variant::Str(address),
                            _ => Variant::Local(address),
                        },
                        otype: Type::of(ctype),
                    },
                )
            },
        }
    }

    /// Every operand but `Null` takes part in liveness.
    pub open spec fn spillable(&self) -> bool {
        !(self.variant is Null)
    }

    /// Whether the operand has a home in memory: a global or a slot of the
    /// frame.
    pub open spec fn variable(&self) -> bool {
        self.variant is Global || self.variant is Local
    }

    /// No operand.
    pub fn new_null() -> (o: Operand)
        ensures
            o == Operand::null(),
    {
        Operand { variant: Variant::Null, otype: Type::T }
    }

    /// The operand of a variable.
    pub fn from_symbol(ctype: &CType, symbol: Entry) -> (r: Result<Operand, Error>)
        ensures
            plain(r) == Operand::of_symbol(*ctype, symbol@),
    {
        match symbol {
            Entry::Symbol { address, symtype, .. } => {
                if let CType::Void = ctype {
                    return Err(Error::Type);
                }
                let variant = match symtype {
                    SymbolType::Global => Variant::Global(address),
                    SymbolType::Str(_) => Variant::Str(address),
                    SymbolType::Local | SymbolType::Argument => Variant::Local(address),
                };
                Ok(Operand { variant, otype: Type::from_ctype(ctype) })
            },
            Entry::Function { .. } => Err(
                Error::ThreeAC(String::from_str("from_var: encountered function instead of var")),
            ),
        }
    }

    /// Whether the operand takes part in liveness: every operand but `Null`.
    #[verifier::when_used_as_spec(spillable)]
    pub fn is_spillable(&self) -> (b: bool)
        ensures
            b == self.spillable(),
    {
        match self.variant {
            Variant::Null => false,
            _ => true,
        }
    }

    /// Whether the operand has a home in memory.
    #[verifier::when_used_as_spec(variable)]
    pub fn is_variable(&self) -> (b: bool)
        ensures
            b == self.variable(),
    {
        match self.variant {
            Variant::Global(_) | Variant::Local(_) => true,
            _ => false,
        }
    }
}

impl Operand {
    /// The operand as a listing of three-address code shows it.
    pub open spec fn text(self) -> Seq<char> {
        match self.variant {
            Variant::Global(a) => "$G<0x"@ + hex_word(a) + ">"@,
            Variant::Str(a) => "S<0x"@ + hex_word(a) + ">"@,
            Variant::Local(o) => "L<"@ + dec_int(o as int) + ">"@,
            Variant::Temp(n) => "$T<"@ + dec_int(n as int) + ">"@,
            Variant::TempFloat(n) => "$TF<"@ + dec_int(n as int) + ">"@,
            Variant::Null => Seq::empty(),
        }
    }

    /// Appends the operand as a listing shows it.
    pub fn push_to(&self, s: &mut String)
        ensures
            final(s)@ == old(s)@ + self.text(),
    {
        match self.variant {
            Variant::Global(a) => {
                s.append("$G<0x");
                push_hex_word(s, a);
                s.append(">");
            },
            Variant::Str(a) => {
                s.append("S<0x");
                push_hex_word(s, a);
                s.append(">");
            },
            Variant::Local(o) => {
                s.append("L<");
                push_int(s, o as i64);
                s.append(">");
            },
            Variant::Temp(n) => {
                s.append("$T<");
                push_int(s, n as i64);
                s.append(">");
            },
            Variant::TempFloat(n) => {
                s.append("$TF<");
                push_int(s, n as i64);
                s.append(">");
            },
            Variant::Null => {},
        }
        assert(final(s)@ =~= old(s)@ + self.text());
    }

    /// The operand as a listing of three-address code shows it.
    pub fn to_text(&self) -> (s: String)
        ensures
            s@ == self.text(),
    {
        let mut s = String::new();
        self.push_to(&mut s);
        assert(s@ =~= self.text());
        s
    }
}

} // verus!
