use super::ctype::CType;
use super::entry::Entry;
use super::entry::EntryView;
use super::entry::SymbolType;
use super::entry::SymbolTypeView;
use super::table::inserted;
use super::table::lookup;
use super::table::unique;
use super::table::Bindings;
use super::table::Table;
use crate::error::plain;
use crate::error::Error;
use crate::error::ErrorKind;
use crate::text::hex_word;
use crate::text::push_hex_word;
use vstd::prelude::*;

verus! {

/// The root scope: global variables, string constants and functions.
#[derive(Debug)]
pub struct Scope {
    table: Table,
    children: Vec<usize>,
    global_base: i32,
    string_base: i32,
    function_base: i32,
}

pub struct GlobalView {
    pub table: Bindings,
    pub children: Seq<usize>,
    /// The address of the next global variable.
    pub global_base: i32,
    /// The address of the next string constant.
    pub string_base: i32,
    /// The identity of the next function.
    pub function_base: i32,
}

impl View for Scope {
    type V = GlobalView;

    closed spec fn view(&self) -> GlobalView {
        GlobalView {
            table: self.table@,
            children: self.children@,
            global_base: self.global_base,
            string_base: self.string_base,
            function_base: self.function_base,
        }
    }
}

/// The line of the string table for an entry: its address, a space and its
/// literal; nothing for an entry that is no string constant.
pub open spec fn string_line(e: EntryView) -> Seq<char> {
    match e {
        EntryView::Symbol { address, symtype: SymbolTypeView::Str(value), .. } => "0x"@ + hex_word(
            address,
        ) + " "@ + value + "\n"@,
        _ => Seq::empty(),
    }
}

/// The lines of the string table for the first `n` names of a scope.
pub open spec fn strings_upto(t: Bindings, n: int) -> Seq<char>
    decreases n,
{
    if n <= 0 {
        Seq::empty()
    } else {
        strings_upto(t, n - 1) + string_line(t[n - 1].1)
    }
}

/// Whether an entry is a string constant.
pub open spec fn is_string(e: EntryView) -> bool {
    e matches EntryView::Symbol { symtype: SymbolTypeView::Str(_), .. }
}

/// No name of the scope is a string constant.
pub open spec fn no_strings(t: Bindings) -> bool {
    forall|i: int| 0 <= i < t.len() ==> !is_string((#[trigger] t[i]).1)
}

/// A scope without string constants has no lines in the string table.
pub proof fn lemma_no_strings(t: Bindings, n: int)
    requires
        no_strings(t),
        0 <= n <= t.len(),
    ensures
        strings_upto(t, n) == Seq::<char>::empty(),
    decreases n,
{
    if n > 0 {
        lemma_no_strings(t, n - 1);
        assert(!is_string(t[n - 1].1));
        assert(strings_upto(t, n) =~= Seq::<char>::empty());
    }
}

/// Declaring anything but a string constant in a scope without string
/// constants leaves it without.
pub proof fn lemma_inserted_no_strings(t: Bindings, name: Seq<char>, entry: EntryView)
    requires
        no_strings(t),
        !is_string(entry),
    ensures
        no_strings(inserted(t, name, entry)),
{
    let u = inserted(t, name, entry);
    crate::symtable::table::lemma_position(t, name, 0);
    assert forall|i: int| 0 <= i < u.len() implies !is_string((#[trigger] u[i]).1) by {
        match crate::symtable::table::position(t, name) {
            Some(k) => {
                if i != k {
                    assert(u[i] == t[i]);
                }
            },
            None => {
                if i < t.len() {
                    assert(u[i] == t[i]);
                }
            },
        }
    }
}

impl GlobalView {
    /// The scope with one more scope linked below it.
    pub open spec fn add_subscope(self, child: usize) -> GlobalView {
        GlobalView { children: self.children.push(child), ..self }
    }

    /// Declares a function under the next identity. Fails, and changes
    /// nothing, when the identities are used up.
    pub open spec fn add_function(self, ctype: CType, name: Seq<char>, arguments: Seq<CType>) -> (
        GlobalView,
        Result<(), ErrorKind>,
    ) {
        if self.function_base == i32::MAX {
            (self, Err(ErrorKind::SymTable))
        } else {
            (
                GlobalView {
                    table: inserted(
                        self.table,
                        name,
                        EntryView::Function {
                            ctype,
                            address: self.function_base,
                            arguments,
                            scope: 0,
                        },
                    ),
                    function_base: (self.function_base + 1) as i32,
                    ..self
                },
                Ok(()),
            )
        }
    }

    /// Records the scope of a function's body. Fails on an unknown name.
    pub open spec fn set_function_scope(self, name: Seq<char>, scope: usize) -> (
        GlobalView,
        Result<(), ErrorKind>,
    ) {
        match lookup(self.table, name) {
            Some(e) => (
                GlobalView { table: inserted(self.table, name, e.set_scope(scope)), ..self },
                Ok(()),
            ),
            None => (self, Err(ErrorKind::SymTable)),
        }
    }

    /// Declares a global variable or a string constant at the next address of
    /// its kind, four bytes after the last. Fails, and changes nothing, for
    /// any other kind and when the addresses are used up.
    pub open spec fn add_symbol(self, ctype: CType, name: Seq<char>, symtype: SymbolTypeView) -> (
        GlobalView,
        Result<(), ErrorKind>,
    ) {
        match symtype {
            SymbolTypeView::Global => if self.global_base > i32::MAX - 4 {
                (self, Err(ErrorKind::SymTable))
            } else {
                (
                    GlobalView {
                        table: inserted(
                            self.table,
                            name,
                            EntryView::Symbol { ctype, address: self.global_base, symtype },
                        ),
                        global_base: (self.global_base + 4) as i32,
                        ..self
                    },
                    Ok(()),
                )
            },
            SymbolTypeView::Str(_) => if self.string_base > i32::MAX - 4 {
                (self, Err(ErrorKind::SymTable))
            } else {
                (
                    GlobalView {
                        table: inserted(
                            self.table,
                            name,
                            EntryView::Symbol { ctype, address: self.string_base, symtype },
                        ),
                        string_base: (self.string_base + 4) as i32,
                        ..self
                    },
                    Ok(()),
                )
            },
            _ => (self, Err(ErrorKind::SymTable)),
        }
    }

    /// The string table: one line for each string constant, in the order of
    /// declaration.
    pub open spec fn strings_in_asm(self) -> Seq<char> {
        strings_upto(self.table, self.table.len() as int)
    }
}

impl Scope {
    /// An empty root scope with the addresses that globals and strings start at.
    pub fn new(global_base: i32, string_base: i32) -> (s: Scope)
        ensures
            s@ == (GlobalView {
                table: Seq::empty(),
                children: Seq::empty(),
                global_base,
                string_base,
                function_base: 0,
            }),
    {
        Scope {
            table: Table::new(),
            children: Vec::new(),
            global_base,
            string_base,
            function_base: 0,
        }
    }

    /// Links a scope below the root.
    pub fn add_subscope(&mut self, child: usize)
        ensures
            final(self)@ == old(self)@.add_subscope(child),
    {
        self.children.push(child);
    }

    /// Declares a function under the next identity.
    pub fn add_function(&mut self, ctype: CType, name: String, arguments: Vec<CType>) -> (r: Result<
        (),
        Error,
    >)
        ensures
            (final(self)@, plain(r)) == old(self)@.add_function(ctype, name@, arguments@),
            unique(old(self)@.table) ==> unique(final(self)@.table),
    {
        if self.function_base == i32::MAX {
            return Err(Error::SymTable(String::from_str("add_function: too many functions")));
        }
        self.table.insert(
            name,
            Entry::Function { ctype, address: self.function_base, scope: 0, arguments },
        );
        self.function_base += 1;
        Ok(())
    }

    /// Records the scope of a function's body.
    pub fn set_function_scope(&mut self, name: &String, scope: usize) -> (r: Result<(), Error>)
        ensures
            (final(self)@, plain(r)) == old(self)@.set_function_scope(name@, scope),
            unique(old(self)@.table) ==> unique(final(self)@.table),
    {
        match self.table.get(name) {
            Some(e) => {
                self.table.insert(name.clone(), e.set_scope(scope));
                Ok(())
            },
            None => Err(
                Error::SymTable(String::from_str("set_function_scope: function doesn't exist")),
            ),
        }
    }

    /// Declares a global variable or a string constant at the next address of its kind.
    pub fn add_symbol(&mut self, ctype: CType, name: String, symtype: SymbolType) -> (r: Result<
        (),
        Error,
    >)
        ensures
            (final(self)@, plain(r)) == old(self)@.add_symbol(ctype, name@, symtype@),
            unique(old(self)@.table) ==> unique(final(self)@.table),
    {
        let address = match &symtype {
            SymbolType::Global => {
                if self.global_base > i32::MAX - 4 {
                    return Err(
                        Error::SymTable(String::from_str("add_symbol: out of global addresses")),
                    );
                }
                let addr = self.global_base;
                self.global_base += 4;
                addr
            },
            SymbolType::Str(_) => {
                if self.string_base > i32::MAX - 4 {
                    return Err(
                        Error::SymTable(String::from_str("add_symbol: out of string addresses")),
                    );
                }
                let addr = self.string_base;
                self.string_base += 4;
                addr
            },
            _ => {
                return Err(
                    Error::SymTable(
                        String::from_str("add_symbol: expected global or string, got other"),
                    ),
                );
            },
        };
        self.table.insert(name, Entry::Symbol { ctype, address, symtype });
        Ok(())
    }

    /// Whether the scope declares `name`.
    pub fn contains_symbol(&self, name: &String) -> (b: bool)
        ensures
            b == lookup(self@.table, name@) is Some,
    {
        self.table.contains(name)
    }

    /// The root has no parent.
    pub fn get_parent(&self) -> (p: Option<usize>)
        ensures
            p is None,
    {
        None
    }

    /// A copy of what `name` stands for.
    pub fn get_symbol(&self, name: &String) -> (r: Option<Entry>)
        ensures
            match r {
                Some(e) => lookup(self@.table, name@) == Some(e@),
                None => lookup(self@.table, name@) is None,
            },
    {
        self.table.get(name)
    }

    /// The string table: one line for each string constant, in the order of declaration.
    pub fn strings_in_asm(&self) -> (s: String)
        ensures
            s@ == self@.strings_in_asm(),
    {
        let mut out = String::new();
        let mut i: usize = 0;
        assert(out@ =~= strings_upto(self.table@, 0));
        while i < self.table.len()
            invariant
                i <= self.table@.len(),
                out@ == strings_upto(self.table@, i as int),
            decreases self.table@.len() - i,
        {
            let ghost before = out@;
            match self.table.entry_at(i) {
                Entry::Symbol { address, symtype: SymbolType::Str(value), .. } => {
                    out.append("0x");
                    push_hex_word(&mut out, *address);
                    out.append(" ");
                    out.append(value.as_str());
                    out.append("\n");
                    assert(out@ =~= before + string_line(self.table@[i as int].1));
                },
                _ => {
                    assert(out@ =~= before + string_line(self.table@[i as int].1));
                },
            }
            i += 1;
        }
        out
    }

    /// The next global address and the next string address.
    pub fn get_addr_val(&self) -> (r: (i32, i32))
        ensures
            r == (self@.global_base, self@.string_base),
    {
        (self.global_base, self.string_base)
    }
}

} // verus!
