//! The names of one scope, in the order in which they were first declared.

use super::entry::Entry;
use super::entry::EntryView;
use vstd::prelude::*;

verus! {

/// The model of a scope's names: each with what it stands for, in order.
pub type Bindings = Seq<(Seq<char>, EntryView)>;

/// The first place at or after `i` where `name` stands.
pub open spec fn position_from(t: Bindings, name: Seq<char>, i: int) -> Option<int>
    decreases t.len() - i,
{
    if i < 0 || i >= t.len() {
        None
    } else if t[i].0 == name {
        Some(i)
    } else {
        position_from(t, name, i + 1)
    }
}

/// The first place where `name` stands.
pub open spec fn position(t: Bindings, name: Seq<char>) -> Option<int> {
    position_from(t, name, 0)
}

/// What `name` stands for.
pub open spec fn lookup(t: Bindings, name: Seq<char>) -> Option<EntryView> {
    match position(t, name) {
        Some(i) => Some(t[i].1),
        None => None,
    }
}

/// The names after `name` was declared as `entry`: a name that stood
/// already keeps its place and takes the new entry, a new one goes last.
pub open spec fn inserted(t: Bindings, name: Seq<char>, entry: EntryView) -> Bindings {
    match position(t, name) {
        Some(i) => t.update(i, (name, entry)),
        None => t.push((name, entry)),
    }
}

/// No name stands twice.
pub open spec fn unique(t: Bindings) -> bool {
    forall|i: int, j: int| 0 <= i < j < t.len() ==> (#[trigger] t[i]).0 != (#[trigger] t[j]).0
}

/// Where a name is found it stands, and it stands nowhere before.
pub proof fn lemma_position(t: Bindings, name: Seq<char>, i: int)
    requires
        0 <= i,
    ensures
        match position_from(t, name, i) {
            Some(k) => i <= k < t.len() && t[k].0 == name && forall|j: int|
                i <= j < k ==> (#[trigger] t[j]).0 != name,
            None => forall|j: int| i <= j < t.len() ==> (#[trigger] t[j]).0 != name,
        },
    decreases t.len() - i,
{
    if i < t.len() && t[i].0 != name {
        lemma_position(t, name, i + 1);
    }
}

/// Declaring a name keeps the names of a scope unique, makes the name stand
/// for the new entry and leaves every other name alone.
pub proof fn lemma_inserted(t: Bindings, name: Seq<char>, entry: EntryView, other: Seq<char>)
    requires
        unique(t),
    ensures
        unique(inserted(t, name, entry)),
        lookup(inserted(t, name, entry), name) == Some(entry),
        other != name ==> lookup(inserted(t, name, entry), other) == lookup(t, other),
{
    let u = inserted(t, name, entry);
    lemma_position(t, name, 0);
    lemma_position(u, name, 0);
    lemma_position(t, other, 0);
    lemma_position(u, other, 0);
    match position(t, name) {
        Some(i) => {
            assert forall|a: int, b: int| 0 <= a < b < u.len() implies (#[trigger] u[a]).0 != (
            #[trigger] u[b]).0 by {
                assert(t[a].0 != t[b].0);
            }
            assert(u[i].0 == name);
            if other != name {
                match position(t, other) {
                    Some(k) => {
                        assert(u[k] == t[k]);
                    },
                    None => {},
                }
                match position(u, other) {
                    Some(k) => {
                        assert(t[k].0 == other);
                    },
                    None => {},
                }
            }
        },
        None => {
            assert forall|a: int, b: int| 0 <= a < b < u.len() implies (#[trigger] u[a]).0 != (
            #[trigger] u[b]).0 by {
                if b < t.len() {
                    assert(t[a].0 != t[b].0);
                } else {
                    assert(t[a].0 != name);
                }
            }
            assert(u[t.len() as int].0 == name);
            if other != name {
                match position(t, other) {
                    Some(k) => {
                        assert(u[k] == t[k]);
                    },
                    None => {},
                }
                match position(u, other) {
                    Some(k) => {
                        assert(t[k].0 == other);
                    },
                    None => {},
                }
            }
        },
    }
}

/// A name with what it stands for.
#[derive(Debug)]
pub struct Binding {
    pub name: String,
    pub entry: Entry,
}

/// The names of one scope.
#[derive(Debug)]
pub struct Table {
    items: Vec<Binding>,
}

impl View for Table {
    type V = Bindings;

    closed spec fn view(&self) -> Bindings {
        Seq::new(self.items@.len(), |i: int| (self.items@[i].name@, self.items@[i].entry@))
    }
}

impl Table {
    /// A scope without names.
    pub fn new() -> (t: Table)
        ensures
            t@ == Seq::<(Seq<char>, EntryView)>::empty(),
    {
        let t = Table { items: Vec::new() };
        assert(t@ =~= Seq::<(Seq<char>, EntryView)>::empty());
        t
    }

    /// How many names the scope holds.
    pub fn len(&self) -> (n: usize)
        ensures
            n == self@.len(),
    {
        self.items.len()
    }

    /// The name at a place.
    pub fn name_at(&self, i: usize) -> (name: &String)
        requires
            i < self@.len(),
        ensures
            name@ == self@[i as int].0,
    {
        &self.items[i].name
    }

    /// The entry at a place.
    pub fn entry_at(&self, i: usize) -> (entry: &Entry)
        requires
            i < self@.len(),
        ensures
            entry@ == self@[i as int].1,
    {
        &self.items[i].entry
    }

    /// The first place where `name` stands.
    pub fn find(&self, name: &String) -> (r: Option<usize>)
        ensures
            match r {
                Some(i) => position(self@, name@) == Some(i as int),
                None => position(self@, name@) is None,
            },
    {
        let mut i: usize = 0;
        while i < self.items.len()
            invariant
                i <= self.items@.len(),
                self@.len() == self.items@.len(),
                position(self@, name@) == position_from(self@, name@, i as int),
            decreases self.items@.len() - i,
        {
            if self.items[i].name == *name {
                return Some(i);
            }
            i += 1;
        }
        None
    }

    /// Whether `name` stands in the scope.
    pub fn contains(&self, name: &String) -> (b: bool)
        ensures
            b == lookup(self@, name@) is Some,
    {
        self.find(name).is_some()
    }

    /// A copy of what `name` stands for.
    pub fn get(&self, name: &String) -> (r: Option<Entry>)
        ensures
            match r {
                Some(e) => lookup(self@, name@) == Some(e@),
                None => lookup(self@, name@) is None,
            },
    {
        match self.find(name) {
            Some(i) => {
                proof {
                    lemma_position(self@, name@, 0);
                }
                Some(self.items[i].entry.clone())
            },
            None => None,
        }
    }

    /// Declares `name` as `entry`.
    pub fn insert(&mut self, name: String, entry: Entry)
        ensures
            final(self)@ == inserted(old(self)@, name@, entry@),
            unique(old(self)@) ==> unique(final(self)@),
    {
        proof {
            lemma_position(self@, name@, 0);
            if unique(self@) {
                lemma_inserted(self@, name@, entry@, name@);
            }
        }
        match self.find(&name) {
            Some(i) => {
                self.items.set(i, Binding { name, entry });
            },
            None => {
                self.items.push(Binding { name, entry });
            },
        }
        assert(self@ =~= inserted(old(self)@, name@, entry@));
    }
}

} // verus!
