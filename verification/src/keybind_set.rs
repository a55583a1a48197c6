//! A set of keybinds, the keys that the input loop reports to the core.
use vstd::prelude::*;
use crate::input::Keybind;

verus! {

/// A set of keybinds, held in the order of their first insertion.
#[derive(Debug)]
pub struct KeybindSet {
    items: Vec<Keybind>,
}

impl View for KeybindSet {
    type V = Set<Keybind>;

    closed spec fn view(&self) -> Set<Keybind> {
        self.items@.to_set()
    }
}

impl Clone for KeybindSet {
    fn clone(&self) -> (c: KeybindSet)
        ensures
            c@ == self@,
            c.entries() == self.entries(),
    {
        KeybindSet { items: self.items.clone() }
    }
}

impl KeybindSet {
    /// The keybinds in the order in which they were first inserted.
    pub closed spec fn entries(&self) -> Seq<Keybind> {
        self.items@
    }

    /// An empty set.
    pub fn new() -> (s: KeybindSet)
        ensures
            s@ == Set::<Keybind>::empty(),
            s.entries() == Seq::<Keybind>::empty(),
    {
        let s = KeybindSet { items: Vec::new() };
        assert(s.items@.to_set() =~= Set::<Keybind>::empty());
        s
    }

    /// Whether `key` is in the set.
    pub fn contains(&self, key: &Keybind) -> (b: bool)
        ensures
            b == self@.contains(*key),
    {
        let mut i: usize = 0;
        while i < self.items.len()
            invariant
                i <= self.items@.len(),
                forall|j: int| 0 <= j < i ==> self.items@[j] != *key,
            decreases self.items@.len() - i,
        {
            if self.items[i] == *key {
                assert(self.items@.to_set().contains(self.items@[i as int]));
                return true;
            }
            i += 1;
        }
        assert(!self.items@.to_set().contains(*key)) by {
            if self.items@.to_set().contains(*key) {
                assert(self.items@.contains(*key));
            }
        }
        false
    }

    /// Adds `key`; answers whether it was absent before (as `HashSet::insert`).
    pub fn insert(&mut self, key: Keybind) -> (added: bool)
        ensures
            added == !old(self)@.contains(key),
            final(self)@ == old(self)@.insert(key),
            final(self).entries() == (if added {
                old(self).entries().push(key)
            } else {
                old(self).entries()
            }),
    {
        if self.contains(&key) {
            assert(self@.insert(key) =~= self@);
            false
        } else {
            proof {
                assert(!self.items@.contains(key));
            }
            self.items.push(key);
            proof {
                assert(self.items@.to_set() =~= old(self).items@.to_set().insert(key)) by {
                    assert forall|k: Keybind|
                        self.items@.to_set().contains(k) <==> old(
                            self,
                        ).items@.to_set().insert(key).contains(k) by {
                        if self.items@.contains(k) {
                            let j = choose|j: int| 0 <= j < self.items@.len() && self.items@[j] == k;
                            if j < old(self).items@.len() {
                                assert(old(self).items@[j] == k);
                            }
                        }
                        if old(self).items@.contains(k) {
                            let j = choose|j: int|
                                0 <= j < old(self).items@.len() && old(self).items@[j] == k;
                            assert(self.items@[j] == k);
                        }
                        if k == key {
                            assert(self.items@[old(self).items@.len() as int] == key);
                        }
                    }
                }
            }
            true
        }
    }

    /// A set holding `items`, each once, in the order of their first occurrence.
    pub fn from_vec(items: Vec<Keybind>) -> (s: KeybindSet)
        ensures
            s@ == items@.to_set(),
    {
        let mut s = KeybindSet::new();
        let mut i: usize = 0;
        while i < items.len()
            invariant
                i <= items@.len(),
                    s@ == items@.subrange(0, i as int).to_set(),
            decreases items@.len() - i,
        {
            s.insert(items[i]);
            proof {
                assert(items@.subrange(0, i + 1) =~= items@.subrange(0, i as int).push(items@[i as int]));
                assert(items@.subrange(0, i as int).push(items@[i as int]).to_set() =~= items@.subrange(0, i as int).to_set().insert(items@[i as int])) by {
                    let a = items@.subrange(0, i as int);
                    let x = items@[i as int];
                    assert forall|k: Keybind| a.push(x).to_set().contains(k) <==> a.to_set().insert(x).contains(k) by {
                        if a.push(x).contains(k) {
                            let j = choose|j: int| 0 <= j < a.push(x).len() && a.push(x)[j] == k;
                            if j < a.len() {
                                assert(a[j] == k);
                            }
                        }
                        if a.contains(k) {
                            let j = choose|j: int| 0 <= j < a.len() && a[j] == k;
                            assert(a.push(x)[j] == k);
                        }
                        if k == x {
                            assert(a.push(x)[a.len() as int] == x);
                        }
                    }
                }
            }
            i += 1;
        }
        assert(items@.subrange(0, items@.len() as int) =~= items@);
        s
    }

    /// The keybinds, in the order of their first insertion.
    pub fn to_vec(&self) -> (v: Vec<Keybind>)
        ensures
            v@ == self.entries(),
    {
        self.items.clone()
    }
}

} // verus!
