use super::ctype::CType;
use super::entry::Entry;
use super::entry::EntryView;
use super::entry::SymbolType;
use super::entry::SymbolTypeView;
use super::global;
use super::global::GlobalView;
use super::local;
use super::global::lemma_inserted_no_strings;
use super::global::lemma_no_strings;
use super::global::no_strings;
use super::local::LocalView;
use super::scope::Scope;
use super::scope::ScopeView;
use super::table::unique;
use crate::error::outcome;
use crate::error::plain;
use crate::error::Error;
use crate::error::ErrorKind;
use vstd::prelude::*;

verus! {

/// The frame offset before the first argument.
pub const ARG_OFFSET: i32 = 8;

/// The frame offset before the first local variable.
pub const VAR_OFFSET: i32 = 0;

/// The symbol table: every scope of the program, the root first, and the
/// scope that declarations and lookups currently start from.
#[derive(Debug)]
pub struct SymTable {
    scopes: Vec<Scope>,
    curr: usize,
}

pub struct SymTableView {
    pub scopes: Seq<ScopeView>,
    pub curr: usize,
}

impl View for SymTable {
    type V = SymTableView;

    closed spec fn view(&self) -> SymTableView {
        SymTableView {
            scopes: Seq::new(self.scopes@.len(), |i: int| self.scopes@[i]@),
            curr: self.curr,
        }
    }
}

/// The strings of the root scopes among the first `n` scopes.
pub open spec fn scope_strings_upto(scopes: Seq<ScopeView>, n: int) -> Seq<char>
    decreases n,
{
    if n <= 0 {
        Seq::empty()
    } else {
        scope_strings_upto(scopes, n - 1) + match scopes[n - 1] {
            ScopeView::Global(s) => s.strings_in_asm(),
            ScopeView::Local(_) => Seq::empty(),
        }
    }
}

impl SymTableView {
    /// The table of a program without declarations: an empty root scope.
    pub open spec fn fresh(global_base: i32, string_base: i32) -> SymTableView {
        SymTableView {
            scopes: seq![
                ScopeView::Global(
                    GlobalView {
                        table: Seq::empty(),
                        children: Seq::empty(),
                        global_base,
                        string_base,
                        function_base: 0,
                    },
                ),
            ],
            curr: 0,
        }
    }

    /// The current scope exists, and the parent of every function's scope
    /// was made before it.
    pub open spec fn wf(self) -> bool {
        &&& self.curr < self.scopes.len()
        &&& forall|i: int|
            0 <= i < self.scopes.len() ==> match #[trigger] self.scopes[i] {
                ScopeView::Global(_) => true,
                ScopeView::Local(s) => s.parent < i,
            }
    }

    /// No scope holds a name twice.
    pub open spec fn names_unique(self) -> bool {
        forall|i: int| 0 <= i < self.scopes.len() ==> unique((#[trigger] self.scopes[i]).table())
    }

    /// The nearest scope that declares `name`, from scope `from` up its
    /// chain of parents.
    pub open spec fn resolve(self, name: Seq<char>, from: int) -> Option<int>
        decreases from,
    {
        if from < 0 || from >= self.scopes.len() {
            None
        } else if self.scopes[from].contains_symbol(name) {
            Some(from)
        } else {
            match self.scopes[from].get_parent() {
                Some(p) => if p < from {
                    self.resolve(name, p as int)
                } else {
                    None
                },
                None => None,
            }
        }
    }

    /// The current scope.
    pub open spec fn current(self) -> ScopeView {
        self.scopes[self.curr as int]
    }

    /// Whether the current scope or one above it declares `name`.
    pub open spec fn contains_symbol(self, name: Seq<char>) -> bool {
        self.resolve(name, self.curr as int) is Some
    }

    /// The nearest scope that declares `name`, from the current one up.
    pub open spec fn get_scope(self, name: Seq<char>) -> Result<usize, ErrorKind> {
        match self.resolve(name, self.curr as int) {
            Some(i) => Ok(i as usize),
            None => Err(ErrorKind::SymTable),
        }
    }

    /// What `name` stands for in scope `scope`.
    pub open spec fn get_symbol_in_scope(self, name: Seq<char>, scope: usize) -> Result<
        EntryView,
        ErrorKind,
    > {
        if scope < self.scopes.len() {
            match self.scopes[scope as int].get_symbol(name) {
                Some(e) => Ok(e),
                None => Err(ErrorKind::SymTable),
            }
        } else {
            Err(ErrorKind::SymTable)
        }
    }

    /// What `name` stands for in the nearest scope that declares it.
    pub open spec fn get_symbol(self, name: Seq<char>) -> Result<EntryView, ErrorKind> {
        match self.resolve(name, self.curr as int) {
            Some(i) => self.get_symbol_in_scope(name, i as usize),
            None => Err(ErrorKind::SymTable),
        }
    }

    /// The table with `scope` as the current scope; fails for a scope that does not exist.
    pub open spec fn switch_scope(self, scope: usize) -> (SymTableView, Result<(), ErrorKind>) {
        if scope >= self.scopes.len() {
            (self, Err(ErrorKind::SymTable))
        } else {
            (SymTableView { curr: scope, ..self }, Ok(()))
        }
    }

    /// The table with the scope above the current one as the current scope; fails at the root.
    pub open spec fn pop_scope(self) -> (SymTableView, Result<(), ErrorKind>) {
        match self.current().get_parent() {
            Some(p) => (SymTableView { curr: p, ..self }, Ok(())),
            None => (self, Err(ErrorKind::SymTable)),
        }
    }

    /// A new scope for the body of function `function` is made below the
    /// current scope and becomes current; the current scope links it and
    /// records it as the home of `name`. Where the current scope is no root,
    /// or does not know `name`, the new scope stays, current, and the call
    /// fails.
    pub open spec fn push_scope(self, function: i32, name: Seq<char>, ret_val: CType) -> (
        SymTableView,
        Result<(), ErrorKind>,
    ) {
        let parent = self.curr;
        let id = self.scopes.len() as usize;
        let made = self.scopes.push(
            ScopeView::Local(
                LocalView {
                    table: Seq::empty(),
                    function,
                    parent,
                    arg_offset: ARG_OFFSET,
                    var_offset: VAR_OFFSET,
                    ret_type: ret_val,
                },
            ),
        );
        let (linked, r) = made[parent as int].add_subscope(id);
        if r is Err {
            (SymTableView { scopes: made, curr: id }, r)
        } else {
            let (recorded, r) = linked.set_function_scope(name, id);
            (SymTableView { scopes: made.update(parent as int, recorded), curr: id }, r)
        }
    }

    /// The table after a function was declared in the current scope.
    pub open spec fn add_function(self, ctype: CType, name: Seq<char>, arguments: Seq<CType>) -> (
        SymTableView,
        Result<(), ErrorKind>,
    ) {
        let (s, r) = self.current().add_function(ctype, name, arguments);
        (SymTableView { scopes: self.scopes.update(self.curr as int, s), ..self }, r)
    }

    /// The table after a variable was declared in the current scope.
    pub open spec fn add_symbol(self, ctype: CType, name: Seq<char>, symtype: SymbolTypeView) -> (
        SymTableView,
        Result<(), ErrorKind>,
    ) {
        let (s, r) = self.current().add_symbol(ctype, name, symtype);
        (SymTableView { scopes: self.scopes.update(self.curr as int, s), ..self }, r)
    }

    /// The string table of the program: the strings of every root scope, in
    /// the order of the scopes.
    pub open spec fn strings_in_asm(self) -> Seq<char> {
        scope_strings_upto(self.scopes, self.scopes.len() as int)
    }
}

impl SymTable {
    /// The current scope exists, and the parent of every function's scope was made before it.
    pub open spec fn wf(&self) -> bool {
        self@.wf()
    }

    /// The table of a program without declarations.
    pub fn new(global_base: i32, string_base: i32) -> (t: SymTable)
        ensures
            t.wf(),
            t@.names_unique(),
            t@ == SymTableView::fresh(global_base, string_base),
    {
        let mut scopes: Vec<Scope> = Vec::new();
        scopes.push(Scope::Global(global::Scope::new(global_base, string_base)));
        let t = SymTable { scopes, curr: 0 };
        assert(t@.scopes =~= seq![
            ScopeView::Global(
                GlobalView {
                    table: Seq::empty(),
                    children: Seq::empty(),
                    global_base,
                    string_base,
                    function_base: 0,
                },
            ),
        ]);
        t
    }

    /// Whether the table is well formed. Every table that this library
    /// hands out is.
    pub fn is_wf(&self) -> (b: bool)
        ensures
            b == self.wf(),
    {
        if self.curr >= self.scopes.len() {
            return false;
        }
        let mut i: usize = 0;
        while i < self.scopes.len()
            invariant
                i <= self.scopes@.len(),
                self@.scopes.len() == self.scopes@.len(),
                self.curr < self.scopes@.len(),
                forall|k: int|
                    0 <= k < i ==> match #[trigger] self@.scopes[k] {
                        ScopeView::Global(_) => true,
                        ScopeView::Local(s) => s.parent < k,
                    },
            decreases self.scopes@.len() - i,
        {
            assert(self@.scopes[i as int] == self.scopes@[i as int]@);
            match self.scopes[i].get_parent() {
                Some(parent) => {
                    if parent >= i {
                        return false;
                    }
                },
                None => {},
            }
            i += 1;
        }
        true
    }

    /// Makes `scope` the current scope.
    pub fn switch_scope(&mut self, scope: usize) -> (r: Result<(), Error>)
        requires
            old(self).wf(),
        ensures
            final(self).wf(),
            (final(self)@, plain(r)) == old(self)@.switch_scope(scope),
    {
        if scope >= self.scopes.len() {
            return Err(Error::SymTable(String::from_str("switch_scope: scope is outside of range")));
        }
        self.curr = scope;
        Ok(())
    }

    /// Makes a scope for the body of a function and enters it.
    pub fn push_scope(&mut self, function: i32, name: &String, ret_val: CType) -> (r: Result<
        (),
        Error,
    >)
        requires
            old(self).wf(),
        ensures
            final(self).wf(),
            (final(self)@, plain(r)) == old(self)@.push_scope(function, name@, ret_val),
            old(self)@.names_unique() ==> final(self)@.names_unique(),
    {
        let parent = self.curr;
        let id = self.scopes.len();
        self.curr = id;
        self.scopes.push(
            Scope::Local(local::Scope::new(function, parent, ARG_OFFSET, VAR_OFFSET, ret_val)),
        );
        let ghost made = self@.scopes;
        assert(made =~= old(self)@.scopes.push(
            ScopeView::Local(
                LocalView {
                    table: Seq::empty(),
                    function,
                    parent,
                    arg_offset: ARG_OFFSET,
                    var_offset: VAR_OFFSET,
                    ret_type: ret_val,
                },
            ),
        ));
        assert(self@.wf()) by {
            assert forall|i: int| 0 <= i < self@.scopes.len() implies match #[trigger] self@.scopes[i] {
                ScopeView::Global(_) => true,
                ScopeView::Local(s) => s.parent < i,
            } by {
                if i < old(self)@.scopes.len() {
                    assert(self@.scopes[i] == old(self)@.scopes[i]);
                }
            }
        }
        assert(old(self)@.names_unique() ==> self@.names_unique()) by {
            if old(self)@.names_unique() {
                assert forall|i: int| 0 <= i < self@.scopes.len() implies unique(
                    (#[trigger] self@.scopes[i]).table(),
                ) by {
                    if i < old(self)@.scopes.len() {
                        assert(self@.scopes[i] == old(self)@.scopes[i]);
                    }
                }
            }
        }
        let mut scope = self.scopes.remove(parent);
        let linked = scope.add_subscope(id);
        let r = match linked {
            Err(e) => Err(e),
            Ok(()) => scope.set_function_scope(name, id),
        };
        let ghost changed = scope@;
        self.scopes.insert(parent, scope);
        assert(self@.scopes =~= made.update(parent as int, changed));
        proof {
            let expected = old(self)@.push_scope(function, name@, ret_val);
            assert(made[parent as int] == old(self)@.scopes[parent as int]);
            assert(self@.scopes =~= expected.0.scopes);
            assert(plain(r) == expected.1);
        }
        assert(self@.wf()) by {
            assert forall|i: int| 0 <= i < self@.scopes.len() implies match #[trigger] self@.scopes[i] {
                ScopeView::Global(_) => true,
                ScopeView::Local(s) => s.parent < i,
            } by {
                if i != parent {
                    assert(self@.scopes[i] == made[i]);
                } else {
                    assert(made[i] is Local ==> changed == made[i]);
                }
            }
        }
        assert(old(self)@.names_unique() ==> self@.names_unique()) by {
            if old(self)@.names_unique() {
                assert forall|i: int| 0 <= i < self@.scopes.len() implies unique(
                    (#[trigger] self@.scopes[i]).table(),
                ) by {
                    if i != parent {
                        assert(self@.scopes[i] == made[i]);
                    } else {
                        assert(unique(made[i].table()));
                    }
                }
            }
        }
        r
    }

    /// Leaves the current scope for the one above it.
    pub fn pop_scope(&mut self) -> (r: Result<(), Error>)
        requires
            old(self).wf(),
        ensures
            final(self).wf(),
            (final(self)@, plain(r)) == old(self)@.pop_scope(),
    {
        match self.scopes[self.curr].get_parent() {
            Some(val) => {
                assert(self@.scopes[self.curr as int] is Local);
                self.curr = val;
                Ok(())
            },
            None => Err(Error::SymTable(String::from_str("pop_scope: cannot pop from global scope"))),
        }
    }

    /// Declares a function in the current scope.
    pub fn add_function(&mut self, ctype: CType, name: String, arguments: Vec<CType>) -> (r: Result<
        (),
        Error,
    >)
        requires
            old(self).wf(),
        ensures
            final(self).wf(),
            (final(self)@, plain(r)) == old(self)@.add_function(ctype, name@, arguments@),
            old(self)@.names_unique() ==> final(self)@.names_unique(),
    {
        let curr = self.curr;
        let mut scope = self.scopes.remove(curr);
        let ghost before = scope@;
        let r = scope.add_function(ctype, name, arguments);
        let ghost changed = scope@;
        self.scopes.insert(curr, scope);
        proof {
            self.lemma_replaced(old(self), curr as int, changed);
        }
        r
    }

    /// Declares a variable in the current scope.
    pub fn add_symbol(&mut self, ctype: CType, name: String, symtype: SymbolType) -> (r: Result<
        (),
        Error,
    >)
        requires
            old(self).wf(),
        ensures
            final(self).wf(),
            (final(self)@, plain(r)) == old(self)@.add_symbol(ctype, name@, symtype@),
            old(self)@.names_unique() ==> final(self)@.names_unique(),
    {
        let curr = self.curr;
        let mut scope = self.scopes.remove(curr);
        let r = scope.add_symbol(ctype, name, symtype);
        let ghost changed = scope@;
        self.scopes.insert(curr, scope);
        proof {
            self.lemma_replaced(old(self), curr as int, changed);
        }
        r
    }

    /// Replacing a scope by one of the same kind with the same parent keeps
    /// the table well formed, and keeps its names unique where the new
    /// scope's are.
    proof fn lemma_replaced(&self, before: &SymTable, at: int, changed: ScopeView)
        requires
            before.wf(),
            0 <= at < before.scopes@.len(),
            self.curr == before.curr,
            self.scopes@.len() == before.scopes@.len(),
            forall|i: int|
                0 <= i < before.scopes@.len() && i != at ==> self.scopes@[i]@
                    == before.scopes@[i]@,
            self.scopes@[at]@ == changed,
            changed.get_parent() == before.scopes@[at]@.get_parent(),
            changed is Local == before.scopes@[at]@ is Local,
            unique(before.scopes@[at]@.table()) ==> unique(changed.table()),
        ensures
            self.wf(),
            self@.scopes == before@.scopes.update(at, changed),
            before@.names_unique() ==> self@.names_unique(),
    {
        assert(self@.scopes =~= before@.scopes.update(at, changed));
        assert forall|i: int| 0 <= i < self@.scopes.len() implies match #[trigger] self@.scopes[i] {
            ScopeView::Global(_) => true,
            ScopeView::Local(s) => s.parent < i,
        } by {
            assert(before@.scopes[i] == before.scopes@[i]@);
        }
        if before@.names_unique() {
            assert forall|i: int| 0 <= i < self@.scopes.len() implies unique(
                (#[trigger] self@.scopes[i]).table(),
            ) by {
                assert(before@.scopes[i] == before.scopes@[i]@);
                assert(unique(before@.scopes[i].table()));
            }
        }
    }

    /// Whether the current scope or one above it declares `name`.
    pub fn contains_symbol(&self, name: &String) -> (b: bool)
        requires
            self.wf(),
        ensures
            b == self@.contains_symbol(name@),
    {
        self.find_scope(name).is_some()
    }

    /// The nearest scope that declares `name`, from the current one up.
    fn find_scope(&self, name: &String) -> (r: Option<usize>)
        requires
            self.wf(),
        ensures
            match r {
                Some(i) => self@.resolve(name@, self@.curr as int) == Some(i as int) && i
                    < self@.scopes.len() && self@.scopes[i as int].contains_symbol(name@),
                None => self@.resolve(name@, self@.curr as int) is None,
            },
    {
        let mut at = self.curr;
        loop
            invariant
                self.wf(),
                at < self.scopes@.len(),
                self@.resolve(name@, self@.curr as int) == self@.resolve(name@, at as int),
            decreases at,
        {
            assert(self@.scopes[at as int] == self.scopes@[at as int]@);
            if self.scopes[at].contains_symbol(name) {
                return Some(at);
            }
            match self.scopes[at].get_parent() {
                Some(parent) => {
                    at = parent;
                },
                None => {
                    return None;
                },
            }
        }
    }

    /// The identity of the function that the current scope belongs to.
    pub fn get_function(&self) -> (r: Result<i32, Error>)
        requires
            self.wf(),
        ensures
            plain(r) == self@.current().get_function(),
    {
        self.scopes[self.curr].get_function()
    }

    /// The nearest scope that declares `name`, from the current one up.
    pub fn get_scope(&self, name: &String) -> (r: Result<usize, Error>)
        requires
            self.wf(),
        ensures
            plain(r) == self@.get_scope(name@),
    {
        match self.find_scope(name) {
            Some(i) => Ok(i),
            None => Err(Error::SymTable(String::from_str("get_scope: symtable does not contain the symbol"))),
        }
    }

    /// A copy of what `name` stands for in scope `scope`.
    pub fn get_symbol_in_scope(&self, name: &String, scope: usize) -> (r: Result<Entry, Error>)
        ensures
            outcome(r) == self@.get_symbol_in_scope(name@, scope),
    {
        if scope >= self.scopes.len() {
            return Err(
                Error::SymTable(String::from_str("get_symbol_in_scope: scope is outside of range")),
            );
        }
        assert(self@.scopes[scope as int] == self.scopes@[scope as int]@);
        match self.scopes[scope].get_symbol(name) {
            Some(e) => Ok(e),
            None => Err(
                Error::SymTable(String::from_str("get_symbol_in_scope: failed to get symbol")),
            ),
        }
    }

    /// A copy of what `name` stands for in the nearest scope that declares it.
    pub fn get_symbol(&self, name: &String) -> (r: Result<Entry, Error>)
        requires
            self.wf(),
        ensures
            outcome(r) == self@.get_symbol(name@),
    {
        match self.find_scope(name) {
            Some(i) => self.get_symbol_in_scope(name, i),
            None => Err(Error::SymTable(String::from_str("get_symbol: symtable does not contain the symbol"))),
        }
    }

    /// The return type of the function that the current scope belongs to.
    pub fn get_scope_ctype(&self) -> (r: Result<CType, Error>)
        requires
            self.wf(),
        ensures
            plain(r) == self@.current().get_scope_ctype(),
    {
        self.scopes[self.curr].get_scope_ctype()
    }

    /// The string table of the program.
    pub fn strings_in_asm(&self) -> (s: String)
        ensures
            s@ == self@.strings_in_asm(),
    {
        let mut ret = String::new();
        let mut i: usize = 0;
        assert(ret@ =~= scope_strings_upto(self@.scopes, 0));
        while i < self.scopes.len()
            invariant
                i <= self.scopes@.len(),
                self@.scopes.len() == self.scopes@.len(),
                ret@ == scope_strings_upto(self@.scopes, i as int),
            decreases self.scopes@.len() - i,
        {
            let ghost before = ret@;
            assert(self@.scopes[i as int] == self.scopes@[i as int]@);
            match &self.scopes[i] {
                Scope::Global(scope) => {
                    let s = scope.strings_in_asm();
                    ret.append(s.as_str());
                },
                Scope::Local(_) => {
                    assert(ret@ =~= before + Seq::<char>::empty());
                },
            }
            i += 1;
        }
        ret
    }

    /// The next global and string addresses at the root; the last argument and local offsets in a function's scope.
    pub fn get_addr_offset_val(&self) -> (r: (i32, i32))
        requires
            self.wf(),
        ensures
            r == self@.current().get_addr_offset_val(),
    {
        self.scopes[self.curr].get_addr_offset_val()
    }
}

/// The strings of scopes without string constants are empty.
proof fn lemma_scope_strings_empty(scopes: Seq<ScopeView>, n: int)
    requires
        0 <= n <= scopes.len(),
        forall|i: int| 0 <= i < scopes.len() ==> no_strings((#[trigger] scopes[i]).table()),
    ensures
        scope_strings_upto(scopes, n) == Seq::<char>::empty(),
    decreases n,
{
    if n > 0 {
        lemma_scope_strings_empty(scopes, n - 1);
        assert(no_strings(scopes[n - 1].table()));
        match scopes[n - 1] {
            ScopeView::Global(s) => {
                lemma_no_strings(s.table, s.table.len() as int);
            },
            ScopeView::Local(_) => {},
        }
        assert(scope_strings_upto(scopes, n) =~= Seq::<char>::empty());
    }
}

impl SymTableView {
    /// No scope declares a string constant.
    pub open spec fn no_strings(self) -> bool {
        forall|i: int| 0 <= i < self.scopes.len() ==> no_strings((#[trigger] self.scopes[i]).table())
    }

    /// A program that declares no string constant has an empty string
    /// table.
    pub proof fn lemma_strings_empty(self)
        requires
            self.no_strings(),
        ensures
            self.strings_in_asm() == Seq::<char>::empty(),
    {
        lemma_scope_strings_empty(self.scopes, self.scopes.len() as int);
    }

    /// Declaring a function leaves a table without string constants
    /// without.
    pub proof fn lemma_add_function_no_strings(
        self,
        ctype: CType,
        name: Seq<char>,
        arguments: Seq<CType>,
    )
        requires
            self.no_strings(),
            self.curr < self.scopes.len(),
        ensures
            self.add_function(ctype, name, arguments).0.no_strings(),
    {
        let next = self.add_function(ctype, name, arguments).0;
        assert(no_strings(self.current().table()));
        match self.current() {
            ScopeView::Global(s) => {
                lemma_inserted_no_strings(
                    s.table,
                    name,
                    EntryView::Function { ctype, address: s.function_base, arguments, scope: 0 },
                );
            },
            ScopeView::Local(_) => {},
        }
        assert forall|i: int| 0 <= i < next.scopes.len() implies no_strings(
            (#[trigger] next.scopes[i]).table(),
        ) by {
            if i != self.curr {
                assert(next.scopes[i] == self.scopes[i]);
            }
        }
    }

    /// Declaring anything but a string constant leaves a table without
    /// string constants without.
    pub proof fn lemma_add_symbol_no_strings(
        self,
        ctype: CType,
        name: Seq<char>,
        symtype: SymbolTypeView,
    )
        requires
            self.no_strings(),
            self.curr < self.scopes.len(),
            !(symtype is Str),
        ensures
            self.add_symbol(ctype, name, symtype).0.no_strings(),
    {
        let next = self.add_symbol(ctype, name, symtype).0;
        assert(no_strings(self.current().table()));
        match self.current() {
            ScopeView::Global(s) => {
                lemma_inserted_no_strings(
                    s.table,
                    name,
                    EntryView::Symbol { ctype, address: s.global_base, symtype },
                );
            },
            ScopeView::Local(s) => {
                lemma_inserted_no_strings(
                    s.table,
                    name,
                    EntryView::Symbol { ctype, address: (s.arg_offset + 4) as i32, symtype },
                );
                lemma_inserted_no_strings(
                    s.table,
                    name,
                    EntryView::Symbol { ctype, address: (s.var_offset - 4) as i32, symtype },
                );
            },
        }
        assert forall|i: int| 0 <= i < next.scopes.len() implies no_strings(
            (#[trigger] next.scopes[i]).table(),
        ) by {
            if i != self.curr {
                assert(next.scopes[i] == self.scopes[i]);
            }
        }
    }

    /// Pushing a scope leaves a table without string constants without.
    pub proof fn lemma_push_scope_no_strings(self, function: i32, name: Seq<char>, ret_val: CType)
        requires
            self.no_strings(),
            self.curr < self.scopes.len(),
        ensures
            self.push_scope(function, name, ret_val).0.no_strings(),
    {
        let next = self.push_scope(function, name, ret_val).0;
        let parent = self.curr as int;
        let id = self.scopes.len() as usize;
        assert(no_strings(self.scopes[parent].table()));
        match self.scopes[parent] {
            ScopeView::Global(s) => {
                let linked = s.add_subscope(id);
                crate::symtable::table::lemma_position(s.table, name, 0);
                match crate::symtable::table::lookup(s.table, name) {
                    Some(e) => {
                        lemma_inserted_no_strings(s.table, name, e.set_scope(id));
                    },
                    None => {},
                }
            },
            ScopeView::Local(_) => {},
        }
        assert forall|i: int| 0 <= i < next.scopes.len() implies no_strings(
            (#[trigger] next.scopes[i]).table(),
        ) by {
            if i < self.scopes.len() && i != parent {
                assert(next.scopes[i] == self.scopes[i]);
            }
        }
    }
}

impl SymTableView {
    /// Every step of the table keeps it well formed.
    pub proof fn lemma_steps_keep_wf(
        self,
        ctype: CType,
        name: Seq<char>,
        arguments: Seq<CType>,
        symtype: SymbolTypeView,
        function: i32,
        scope: usize,
    )
        requires
            self.wf(),
        ensures
            self.add_function(ctype, name, arguments).0.wf(),
            self.add_symbol(ctype, name, symtype).0.wf(),
            self.push_scope(function, name, ctype).0.wf(),
            self.pop_scope().0.wf(),
            self.switch_scope(scope).0.wf(),
            self.pop_scope().0.scopes == self.scopes,
            self.switch_scope(scope).0.scopes == self.scopes,
    {
        let a = self.add_function(ctype, name, arguments).0;
        assert forall|i: int| 0 <= i < a.scopes.len() implies match #[trigger] a.scopes[i] {
            ScopeView::Global(_) => true,
            ScopeView::Local(s) => s.parent < i,
        } by {
            assert(self.scopes[i] is Local ==> a.scopes[i] == self.scopes[i]);
        }
        let b = self.add_symbol(ctype, name, symtype).0;
        assert forall|i: int| 0 <= i < b.scopes.len() implies match #[trigger] b.scopes[i] {
            ScopeView::Global(_) => true,
            ScopeView::Local(s) => s.parent < i,
        } by {
            if i != self.curr {
                assert(b.scopes[i] == self.scopes[i]);
            } else {
                assert(self.scopes[i] is Local ==> b.scopes[i] is Local && b.scopes[i]->Local_0.parent
                    == self.scopes[i]->Local_0.parent);
            }
        }
        let p = self.push_scope(function, name, ctype).0;
        assert forall|i: int| 0 <= i < p.scopes.len() implies match #[trigger] p.scopes[i] {
            ScopeView::Global(_) => true,
            ScopeView::Local(s) => s.parent < i,
        } by {
            if i < self.scopes.len() {
                assert(self.scopes[i] is Local ==> p.scopes[i] == self.scopes[i]);
            }
        }
        assert(self.scopes[self.curr as int] is Local ==> self.scopes[self.curr as int]->Local_0.parent
            < self.curr);
    }
}

} // verus!
