use super::ctype::CType;
use super::entry::Entry;
use super::entry::EntryView;
use super::entry::SymbolType;
use super::entry::SymbolTypeView;
use super::global;
use super::global::GlobalView;
use super::local;
use super::local::LocalView;
use super::table::lookup;
use super::table::unique;
use super::table::Bindings;
use crate::error::plain;
use crate::error::Error;
use crate::error::ErrorKind;
use vstd::prelude::*;

verus! {

/// A scope of the symbol table: the root, or the body of a function.
#[derive(Debug)]
pub enum Scope {
    Global(global::Scope),
    Local(local::Scope),
}

pub enum ScopeView {
    Global(GlobalView),
    Local(LocalView),
}

impl View for Scope {
    type V = ScopeView;

    open spec fn view(&self) -> ScopeView {
        match self {
            Scope::Global(s) => ScopeView::Global(s@),
            Scope::Local(s) => ScopeView::Local(s@),
        }
    }
}

impl ScopeView {
    /// The names of the scope.
    pub open spec fn table(self) -> Bindings {
        match self {
            ScopeView::Global(s) => s.table,
            ScopeView::Local(s) => s.table,
        }
    }

    /// Whether the scope declares `name`.
    pub open spec fn contains_symbol(self, name: Seq<char>) -> bool {
        lookup(self.table(), name) is Some
    }

    /// What `name` stands for in the scope.
    pub open spec fn get_symbol(self, name: Seq<char>) -> Option<EntryView> {
        lookup(self.table(), name)
    }

    /// The scope above; none for the root.
    pub open spec fn get_parent(self) -> Option<usize> {
        match self {
            ScopeView::Global(_) => None,
            ScopeView::Local(s) => Some(s.parent),
        }
    }

    /// Only the root links scopes below it.
    pub open spec fn add_subscope(self, child: usize) -> (ScopeView, Result<(), ErrorKind>) {
        match self {
            ScopeView::Global(s) => (ScopeView::Global(s.add_subscope(child)), Ok(())),
            ScopeView::Local(_) => (self, Err(ErrorKind::SymTable)),
        }
    }

    /// Only the root declares functions.
    pub open spec fn add_function(self, ctype: CType, name: Seq<char>, arguments: Seq<CType>) -> (
        ScopeView,
        Result<(), ErrorKind>,
    ) {
        match self {
            ScopeView::Global(s) => {
                let (t, r) = s.add_function(ctype, name, arguments);
                (ScopeView::Global(t), r)
            },
            ScopeView::Local(_) => (self, Err(ErrorKind::SymTable)),
        }
    }

    /// Only the root records the scopes of functions.
    pub open spec fn set_function_scope(self, name: Seq<char>, scope: usize) -> (
        ScopeView,
        Result<(), ErrorKind>,
    ) {
        match self {
            ScopeView::Global(s) => {
                let (t, r) = s.set_function_scope(name, scope);
                (ScopeView::Global(t), r)
            },
            ScopeView::Local(_) => (self, Err(ErrorKind::SymTable)),
        }
    }

    /// The scope after a variable was declared in it.
    pub open spec fn add_symbol(self, ctype: CType, name: Seq<char>, symtype: SymbolTypeView) -> (
        ScopeView,
        Result<(), ErrorKind>,
    ) {
        match self {
            ScopeView::Global(s) => {
                let (t, r) = s.add_symbol(ctype, name, symtype);
                (ScopeView::Global(t), r)
            },
            ScopeView::Local(s) => {
                let (t, r) = s.add_symbol(ctype, name, symtype);
                (ScopeView::Local(t), r)
            },
        }
    }

    /// The next global and string addresses of the root; the last argument
    /// and local offsets of a function's scope.
    pub open spec fn get_addr_offset_val(self) -> (i32, i32) {
        match self {
            ScopeView::Global(s) => (s.global_base, s.string_base),
            ScopeView::Local(s) => (s.arg_offset, s.var_offset),
        }
    }

    /// The identity of the function that a scope belongs to; the root belongs
    /// to none.
    pub open spec fn get_function(self) -> Result<i32, ErrorKind> {
        match self {
            ScopeView::Global(_) => Err(ErrorKind::SymTable),
            ScopeView::Local(s) => Ok(s.function),
        }
    }

    /// The return type of the function that a scope belongs to.
    pub open spec fn get_scope_ctype(self) -> Result<CType, ErrorKind> {
        match self {
            ScopeView::Global(_) => Err(ErrorKind::SymTable),
            ScopeView::Local(s) => Ok(s.ret_type),
        }
    }
}

impl Scope {
    /// Links a scope below this one.
    pub fn add_subscope(&mut self, child: usize) -> (r: Result<(), Error>)
        ensures
            (final(self)@, plain(r)) == old(self)@.add_subscope(child),
    {
        match self {
            Scope::Global(scope) => {
                scope.add_subscope(child);
                Ok(())
            },
            Scope::Local(_) => Err(
                Error::SymTable(
                    String::from_str("add_subscope: local scope cannot add subscopes"),
                ),
            ),
        }
    }

    /// Declares a function.
    pub fn add_function(&mut self, ctype: CType, name: String, arguments: Vec<CType>) -> (r: Result<
        (),
        Error,
    >)
        ensures
            (final(self)@, plain(r)) == old(self)@.add_function(ctype, name@, arguments@),
            unique(old(self)@.table()) ==> unique(final(self)@.table()),
    {
        match self {
            Scope::Global(scope) => scope.add_function(ctype, name, arguments),
            Scope::Local(_) => Err(
                Error::SymTable(
                    String::from_str("add_function: local scope cannot add functions"),
                ),
            ),
        }
    }

    /// Records the scope of a function's body.
    pub fn set_function_scope(&mut self, name: &String, scope: usize) -> (r: Result<(), Error>)
        ensures
            (final(self)@, plain(r)) == old(self)@.set_function_scope(name@, scope),
            unique(old(self)@.table()) ==> unique(final(self)@.table()),
    {
        match self {
            Scope::Global(s) => s.set_function_scope(name, scope),
            Scope::Local(_) => Err(
                Error::SymTable(
                    String::from_str("set_function_scope: local scope should not have functions"),
                ),
            ),
        }
    }

    /// Declares a variable.
    pub fn add_symbol(&mut self, ctype: CType, name: String, symtype: SymbolType) -> (r: Result<
        (),
        Error,
    >)
        ensures
            (final(self)@, plain(r)) == old(self)@.add_symbol(ctype, name@, symtype@),
            unique(old(self)@.table()) ==> unique(final(self)@.table()),
    {
        match self {
            Scope::Global(scope) => scope.add_symbol(ctype, name, symtype),
            Scope::Local(scope) => scope.add_symbol(ctype, name, symtype),
        }
    }

    /// Whether the scope declares `name`.
    pub fn contains_symbol(&self, name: &String) -> (b: bool)
        ensures
            b == self@.contains_symbol(name@),
    {
        match self {
            Scope::Global(scope) => scope.contains_symbol(name),
            Scope::Local(scope) => scope.contains_symbol(name),
        }
    }

    /// The scope above; none for the root.
    pub fn get_parent(&self) -> (p: Option<usize>)
        ensures
            p == self@.get_parent(),
    {
        match self {
            Scope::Global(scope) => scope.get_parent(),
            Scope::Local(scope) => scope.get_parent(),
        }
    }

    /// A copy of what `name` stands for.
    pub fn get_symbol(&self, name: &String) -> (r: Option<Entry>)
        ensures
            match r {
                Some(e) => self@.get_symbol(name@) == Some(e@),
                None => self@.get_symbol(name@) is None,
            },
    {
        match self {
            Scope::Global(scope) => scope.get_symbol(name),
            Scope::Local(scope) => scope.get_symbol(name),
        }
    }

    /// The next global and string addresses of the root; the last argument and local offsets of a function's scope.
    pub fn get_addr_offset_val(&self) -> (r: (i32, i32))
        ensures
            r == self@.get_addr_offset_val(),
    {
        match self {
            Scope::Global(scope) => scope.get_addr_val(),
            Scope::Local(scope) => scope.get_offset_val(),
        }
    }

    /// The identity of the function that the scope belongs to.
    pub fn get_function(&self) -> (r: Result<i32, Error>)
        ensures
            plain(r) == self@.get_function(),
    {
        match self {
            Scope::Global(_) => Err(
                Error::SymTable(String::from_str("get_function: global scope is not a function")),
            ),
            Scope::Local(scope) => Ok(scope.get_function()),
        }
    }

    /// The return type of the function that the scope belongs to.
    pub fn get_scope_ctype(&self) -> (r: Result<CType, Error>)
        ensures
            plain(r) == self@.get_scope_ctype(),
    {
        match self {
            Scope::Global(_) => Err(
                Error::SymTable(
                    String::from_str("get_scope_ctype: global scope is not under a function"),
                ),
            ),
            Scope::Local(scope) => Ok(scope.get_scope_ctype()),
        }
    }
}

} // verus!
