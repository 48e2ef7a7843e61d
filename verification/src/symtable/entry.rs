use super::ctype::CType;
use crate::error::Error;
use crate::error::ErrorKind;
use vstd::prelude::*;

verus! {

/// Where a variable lives.
#[derive(Debug, PartialEq, Eq)]
pub enum SymbolType {
    Global,
    Local,
    Argument,
    /// A string constant, with its literal.
    Str(String),
}

pub enum SymbolTypeView {
    Global,
    Local,
    Argument,
    Str(Seq<char>),
}

impl View for SymbolType {
    type V = SymbolTypeView;

    open spec fn view(&self) -> SymbolTypeView {
        match self {
            SymbolType::Global => SymbolTypeView::Global,
            SymbolType::Local => SymbolTypeView::Local,
            SymbolType::Argument => SymbolTypeView::Argument,
            SymbolType::Str(s) => SymbolTypeView::Str(s@),
        }
    }
}

impl Clone for SymbolType {
    fn clone(&self) -> (res: Self)
        ensures
            res@ == self@,
    {
        match self {
            SymbolType::Global => SymbolType::Global,
            SymbolType::Local => SymbolType::Local,
            SymbolType::Argument => SymbolType::Argument,
            SymbolType::Str(s) => SymbolType::Str(s.clone()),
        }
    }
}

/// What a name stands for: a variable with its address, or a function with
/// its identity, its parameter types and the scope of its body.
#[derive(Debug, PartialEq, Eq)]
pub enum Entry {
    Symbol { ctype: CType, address: i32, symtype: SymbolType },
    Function { ctype: CType, address: i32, arguments: Vec<CType>, scope: usize },
}

pub enum EntryView {
    Symbol { ctype: CType, address: i32, symtype: SymbolTypeView },
    Function { ctype: CType, address: i32, arguments: Seq<CType>, scope: usize },
}

impl View for Entry {
    type V = EntryView;

    open spec fn view(&self) -> EntryView {
        match self {
            Entry::Symbol { ctype, address, symtype } => EntryView::Symbol {
                ctype: *ctype,
                address: *address,
                symtype: symtype@,
            },
            Entry::Function { ctype, address, arguments, scope } => EntryView::Function {
                ctype: *ctype,
                address: *address,
                arguments: arguments@,
                scope: *scope,
            },
        }
    }
}

impl EntryView {
    /// The type of a variable; the return type of a function.
    pub open spec fn ctype(self) -> CType {
        match self {
            EntryView::Symbol { ctype, .. } => ctype,
            EntryView::Function { ctype, .. } => ctype,
        }
    }

    /// The address or offset of a variable; the identity of a function.
    pub open spec fn address(self) -> i32 {
        match self {
            EntryView::Symbol { address, .. } => address,
            EntryView::Function { address, .. } => address,
        }
    }

    /// The parameter types of a function; a variable has none to give.
    pub open spec fn arguments(self) -> Result<Seq<CType>, ErrorKind> {
        match self {
            EntryView::Symbol { .. } => Err(ErrorKind::SymTable),
            EntryView::Function { arguments, .. } => Ok(arguments),
        }
    }

    /// The scope of a function's body; 0 for a variable.
    pub open spec fn scope(self) -> usize {
        match self {
            EntryView::Symbol { .. } => 0,
            EntryView::Function { scope, .. } => scope,
        }
    }

    /// The same entry with the scope of its body replaced; a variable stays
    /// as it is.
    pub open spec fn set_scope(self, scope: usize) -> EntryView {
        match self {
            EntryView::Symbol { .. } => self,
            EntryView::Function { ctype, address, arguments, .. } => EntryView::Function {
                ctype,
                address,
                arguments,
                scope,
            },
        }
    }
}

/// A copy of a list of types.
pub fn clone_types(types: &Vec<CType>) -> (res: Vec<CType>)
    ensures
        res@ == types@,
{
    let mut out: Vec<CType> = Vec::new();
    let mut i: usize = 0;
    while i < types.len()
        invariant
            i <= types@.len(),
            out@ == types@.subrange(0, i as int),
        decreases types@.len() - i,
    {
        out.push(types[i].clone());
        assert(out@ =~= types@.subrange(0, i + 1));
        i += 1;
    }
    assert(out@ =~= types@);
    out
}

impl Clone for Entry {
    fn clone(&self) -> (res: Self)
        ensures
            res@ == self@,
    {
        match self {
            Entry::Symbol { ctype, address, symtype } => Entry::Symbol {
                ctype: ctype.clone(),
                address: *address,
                symtype: symtype.clone(),
            },
            Entry::Function { ctype, address, arguments, scope } => Entry::Function {
                ctype: ctype.clone(),
                address: *address,
                arguments: clone_types(arguments),
                scope: *scope,
            },
        }
    }
}

impl Entry {
    /// The type of a variable; the return type of a function.
    pub fn ctype(&self) -> (t: CType)
        ensures
            t == self@.ctype(),
    {
        match self {
            Entry::Symbol { ctype, .. } => ctype.clone(),
            Entry::Function { ctype, .. } => ctype.clone(),
        }
    }

    /// The address or offset of a variable; the identity of a function.
    pub fn address(&self) -> (a: i32)
        ensures
            a == self@.address(),
    {
        match self {
            Entry::Symbol { address, .. } => *address,
            Entry::Function { address, .. } => *address,
        }
    }

    /// The parameter types of a function.
    pub fn arguments(&self) -> (r: Result<Vec<CType>, Error>)
        ensures
            crate::error::outcome(r) == self@.arguments(),
    {
        match self {
            Entry::Symbol { .. } => Err(
                Error::SymTable(String::from_str("arguments: symbol do not have arguments")),
            ),
            Entry::Function { arguments, .. } => Ok(clone_types(arguments)),
        }
    }

    /// The scope of a function's body; 0 for a variable.
    pub fn scope(&self) -> (s: usize)
        ensures
            s == self@.scope(),
    {
        match self {
            Entry::Symbol { .. } => 0,
            Entry::Function { scope, .. } => *scope,
        }
    }

    /// The same entry with the scope of its body replaced.
    pub fn set_scope(self, scope: usize) -> (e: Entry)
        ensures
            e@ == self@.set_scope(scope),
    {
        match self {
            Entry::Symbol { ctype, address, symtype } => Entry::Symbol { ctype, address, symtype },
            Entry::Function { ctype, address, arguments, .. } => Entry::Function {
                ctype,
                address,
                arguments,
                scope,
            },
        }
    }
}

} // verus!
