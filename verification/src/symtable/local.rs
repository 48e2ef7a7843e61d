use super::ctype::CType;
use super::entry::Entry;
use super::entry::EntryView;
use super::entry::SymbolType;
use super::entry::SymbolTypeView;
use super::table::inserted;
use super::table::lookup;
use super::table::unique;
use super::table::Bindings;
use super::table::Table;
use crate::error::plain;
use crate::error::Error;
use crate::error::ErrorKind;
use vstd::prelude::*;

verus! {

/// The scope of one function's body: its arguments and local variables.
#[derive(Debug)]
pub struct Scope {
    table: Table,
    function: i32,
    parent: usize,
    arg_offset: i32,
    var_offset: i32,
    ret_type: CType,
}

pub struct LocalView {
    pub table: Bindings,
    /// The identity of the function that the scope belongs to.
    pub function: i32,
    pub parent: usize,
    /// The frame offset of the last argument declared.
    pub arg_offset: i32,
    /// The frame offset of the last local variable declared.
    pub var_offset: i32,
    pub ret_type: CType,
}

impl View for Scope {
    type V = LocalView;

    closed spec fn view(&self) -> LocalView {
        LocalView {
            table: self.table@,
            function: self.function,
            parent: self.parent,
            arg_offset: self.arg_offset,
            var_offset: self.var_offset,
            ret_type: self.ret_type,
        }
    }
}

impl LocalView {
    /// Declares an argument four bytes above the last, or a local variable
    /// four bytes below the last. Fails, and changes nothing, for any other
    /// kind and when the offsets are used up.
    pub open spec fn add_symbol(self, ctype: CType, name: Seq<char>, symtype: SymbolTypeView) -> (
        LocalView,
        Result<(), ErrorKind>,
    ) {
        match symtype {
            SymbolTypeView::Argument => if self.arg_offset > i32::MAX - 4 {
                (self, Err(ErrorKind::SymTable))
            } else {
                (
                    LocalView {
                        table: inserted(
                            self.table,
                            name,
                            EntryView::Symbol {
                                ctype,
                                address: (self.arg_offset + 4) as i32,
                                symtype,
                            },
                        ),
                        arg_offset: (self.arg_offset + 4) as i32,
                        ..self
                    },
                    Ok(()),
                )
            },
            SymbolTypeView::Local => if self.var_offset < i32::MIN + 4 {
                (self, Err(ErrorKind::SymTable))
            } else {
                (
                    LocalView {
                        table: inserted(
                            self.table,
                            name,
                            EntryView::Symbol {
                                ctype,
                                address: (self.var_offset - 4) as i32,
                                symtype,
                            },
                        ),
                        var_offset: (self.var_offset - 4) as i32,
                        ..self
                    },
                    Ok(()),
                )
            },
            _ => (self, Err(ErrorKind::SymTable)),
        }
    }
}

impl Scope {
    /// An empty scope for the body of function `function`, below scope `parent`.
    pub fn new(function: i32, parent: usize, arg_offset: i32, var_offset: i32, ret_type: CType) -> (s:
        Scope)
        ensures
            s@ == (LocalView {
                table: Seq::empty(),
                function,
                parent,
                arg_offset,
                var_offset,
                ret_type,
            }),
    {
        Scope { table: Table::new(), function, parent, arg_offset, var_offset, ret_type }
    }

    /// Declares an argument or a local variable at the next offset of its kind.
    pub fn add_symbol(&mut self, ctype: CType, name: String, symtype: SymbolType) -> (r: Result<
        (),
        Error,
    >)
        ensures
            (final(self)@, plain(r)) == old(self)@.add_symbol(ctype, name@, symtype@),
            unique(old(self)@.table) ==> unique(final(self)@.table),
    {
        let address = match &symtype {
            SymbolType::Argument => {
                if self.arg_offset > i32::MAX - 4 {
                    return Err(
                        Error::SymTable(String::from_str("add_symbol: out of argument offsets")),
                    );
                }
                self.arg_offset += 4;
                self.arg_offset
            },
            SymbolType::Local => {
                if self.var_offset < i32::MIN + 4 {
                    return Err(
                        Error::SymTable(String::from_str("add_symbol: out of local offsets")),
                    );
                }
                self.var_offset -= 4;
                self.var_offset
            },
            _ => {
                return Err(
                    Error::SymTable(String::from_str("expected arguments or local, got other")),
                );
            },
        };
        self.table.insert(name, Entry::Symbol { ctype, address, symtype });
        Ok(())
    }

    /// Whether the scope declares `name`.
    pub fn contains_symbol(&self, name: &String) -> (b: bool)
        ensures
            b == lookup(self@.table, name@) is Some,
    {
        self.table.contains(name)
    }

    /// The identity of the function that the scope belongs to.
    pub fn get_function(&self) -> (f: i32)
        ensures
            f == self@.function,
    {
        self.function
    }

    /// The scope above.
    pub fn get_parent(&self) -> (p: Option<usize>)
        ensures
            p == Some(self@.parent),
    {
        Some(self.parent)
    }

    /// A copy of what `name` stands for.
    pub fn get_symbol(&self, name: &String) -> (r: Option<Entry>)
        ensures
            match r {
                Some(e) => lookup(self@.table, name@) == Some(e@),
                None => lookup(self@.table, name@) is None,
            },
    {
        self.table.get(name)
    }

    /// The offset of the last argument and that of the last local variable.
    pub fn get_offset_val(&self) -> (r: (i32, i32))
        ensures
            r == (self@.arg_offset, self@.var_offset),
    {
        (self.arg_offset, self.var_offset)
    }

    /// The return type of the function that the scope belongs to.
    pub fn get_scope_ctype(&self) -> (t: CType)
        ensures
            t == self@.ret_type,
    {
        self.ret_type.clone()
    }
}

} // verus!
