use crate::three_ac::Operand;
use vstd::prelude::*;

verus! {

/// A set of operands: those that are live at a point of a block.
#[derive(Debug)]
pub struct LiveSet {
    items: Vec<Operand>,
}

impl View for LiveSet {
    type V = Set<Operand>;

    closed spec fn view(&self) -> Set<Operand> {
        self.items@.to_set()
    }
}

impl Clone for LiveSet {
    fn clone(&self) -> (res: Self)
        ensures
            res@ == self@,
    {
        let mut items: Vec<Operand> = Vec::new();
        let mut i: usize = 0;
        while i < self.items.len()
            invariant
                i <= self.items@.len(),
                items@ == self.items@.subrange(0, i as int),
            decreases self.items@.len() - i,
        {
            items.push(self.items[i]);
            assert(items@ =~= self.items@.subrange(0, i + 1));
            i += 1;
        }
        assert(items@ =~= self.items@);
        LiveSet { items }
    }
}

impl LiveSet {
    /// The empty set.
    pub fn new() -> (s: LiveSet)
        ensures
            s@ == Set::<Operand>::empty(),
    {
        let s = LiveSet { items: Vec::new() };
        assert(s@ =~= Set::<Operand>::empty());
        s
    }

    /// Whether the operand is in the set.
    pub fn contains(&self, op: &Operand) -> (b: bool)
        ensures
            b == self@.contains(*op),
    {
        let mut i: usize = 0;
        while i < self.items.len()
            invariant
                i <= self.items@.len(),
                forall|j: int| 0 <= j < i ==> self.items@[j] != *op,
            decreases self.items@.len() - i,
        {
            if self.items[i] == *op {
                assert(self.items@.contains(*op));
                return true;
            }
            i += 1;
        }
        assert(!self.items@.contains(*op));
        false
    }

    /// Adds an operand.
    pub fn insert(&mut self, op: Operand)
        ensures
            final(self)@ == old(self)@.insert(op),
    {
        if !self.contains(&op) {
            self.items.push(op);
            assert(self@ =~= old(self)@.insert(op)) by {
                assert forall|x: Operand| self@.contains(x) <==> old(self)@.insert(op).contains(
                    x,
                ) by {
                    if self.items@.contains(x) {
                        let j = choose|j: int| 0 <= j < self.items@.len() && self.items@[j] == x;
                        if j < old(self).items@.len() {
                            assert(old(self).items@[j] == x);
                        }
                    }
                    if old(self).items@.contains(x) {
                        let j = choose|j: int|
                            0 <= j < old(self).items@.len() && old(self).items@[j] == x;
                        assert(self.items@[j] == x);
                    }
                    if x == op {
                        assert(self.items@[self.items@.len() - 1] == x);
                    }
                }
            }
        } else {
            assert(self@ =~= old(self)@.insert(op));
        }
    }

    /// Takes an operand out.
    pub fn remove(&mut self, op: &Operand)
        ensures
            final(self)@ == old(self)@.remove(*op),
    {
        let mut kept: Vec<Operand> = Vec::new();
        let mut i: usize = 0;
        while i < self.items.len()
            invariant
                i <= self.items@.len(),
                forall|x: Operand|
                    #[trigger] kept@.contains(x) <==> (x != *op && self.items@.subrange(
                        0,
                        i as int,
                    ).contains(x)),
            decreases self.items@.len() - i,
        {
            let ghost before = kept@;
            let item = self.items[i];
            if item != *op {
                kept.push(item);
            }
            proof {
                let head = self.items@.subrange(0, i as int);
                let next = self.items@.subrange(0, i + 1);
                assert forall|x: Operand| #[trigger]
                    kept@.contains(x) <==> (x != *op && next.contains(x)) by {
                    if kept@.contains(x) {
                        let j = choose|j: int| 0 <= j < kept@.len() && kept@[j] == x;
                        if j < before.len() {
                            assert(before[j] == x);
                            assert(before.contains(x));
                            let k = choose|k: int| 0 <= k < head.len() && head[k] == x;
                            assert(next[k] == x);
                        } else {
                            assert(next[i as int] == x);
                        }
                    }
                    if x != *op && next.contains(x) {
                        let k = choose|k: int| 0 <= k < next.len() && next[k] == x;
                        if k < i {
                            assert(head[k] == x);
                            assert(head.contains(x));
                            assert(before.contains(x));
                            let j = choose|j: int| 0 <= j < before.len() && before[j] == x;
                            assert(kept@[j] == x);
                        } else {
                            assert(kept@[kept@.len() - 1] == x);
                        }
                    }
                }
            }
            i += 1;
        }
        assert(self.items@.subrange(0, i as int) =~= self.items@);
        self.items = kept;
        assert(self@ =~= old(self)@.remove(*op));
    }
}

impl Operand {
    /// Adds the operand to a set where it has a home in memory.
    pub fn insert_to_set_if_a_var(&self, set: &mut LiveSet)
        ensures
            final(set)@ == if self.variable() {
                old(set)@.insert(*self)
            } else {
                old(set)@
            },
    {
        if self.is_variable() {
            self.insert_to_set(set);
        }
    }

    /// Adds the operand to a set, unless it is `Null`.
    pub fn insert_to_set(&self, set: &mut LiveSet)
        ensures
            final(set)@ == if self.spillable() {
                old(set)@.insert(*self)
            } else {
                old(set)@
            },
    {
        if self.is_spillable() {
            set.insert(*self);
        }
    }

    /// Takes the operand out of a set, unless it is `Null`.
    pub fn remove_from_set(&self, set: &mut LiveSet)
        ensures
            final(set)@ == if self.spillable() {
                old(set)@.remove(*self)
            } else {
                old(set)@
            },
    {
        if self.is_spillable() {
            set.remove(self);
        }
    }
}

} // verus!
