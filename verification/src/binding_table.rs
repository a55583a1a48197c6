//! A map from keybinds to what they trigger, as the binder and the
//! configuration hold it.
use vstd::prelude::*;
use crate::input::Keybind;

verus! {

/// Each keybind has at most one entry.
pub open spec fn keys_distinct<A>(s: Seq<(Keybind, A)>) -> bool {
    forall|i: int, j: int| 0 <= i < s.len() && 0 <= j < s.len() && i != j ==> s[i].0 != s[j].0
}

/// The keybind `k` has an entry.
pub open spec fn has_key<A>(s: Seq<(Keybind, A)>, k: Keybind) -> bool {
    exists|i: int| 0 <= i < s.len() && s[i].0 == k
}

/// The map that the entries stand for.
pub open spec fn entries_map<A>(s: Seq<(Keybind, A)>) -> Map<Keybind, A> {
    Map::new(
        |k: Keybind| has_key(s, k),
        |k: Keybind| s[choose|i: int| 0 <= i < s.len() && s[i].0 == k].1,
    )
}

/// Keybinds and what each triggers; a keybind triggers one thing.
pub struct BindingTable<A> {
    entries: Vec<(Keybind, A)>,
}

impl<A> View for BindingTable<A> {
    type V = Map<Keybind, A>;

    closed spec fn view(&self) -> Map<Keybind, A> {
        entries_map(self.entries@)
    }
}

proof fn lemma_value_at<A>(s: Seq<(Keybind, A)>, i: int)
    requires
        keys_distinct(s),
        0 <= i < s.len(),
    ensures
        entries_map(s).dom().contains(s[i].0),
        entries_map(s)[s[i].0] == s[i].1,
{
    assert(has_key(s, s[i].0));
    let j = choose|j: int| 0 <= j < s.len() && s[j].0 == s[i].0;
    assert(j == i);
}

impl<A> BindingTable<A> {
    /// The entries, keybinds distinct.
    pub closed spec fn wf(&self) -> bool {
        keys_distinct(self.entries@)
    }

    /// The keybinds, in the order in which the table holds them.
    pub closed spec fn key_order(&self) -> Seq<Keybind> {
        self.entries@.map_values(|e: (Keybind, A)| e.0)
    }

    /// No bindings.
    pub fn new() -> (t: BindingTable<A>)
        ensures
            t.wf(),
            t@ == Map::<Keybind, A>::empty(),
    {
        let t = BindingTable { entries: Vec::new() };
        assert(t@ =~= Map::<Keybind, A>::empty());
        t
    }

    /// The position of `key`'s entry.
    fn find(&self, key: &Keybind) -> (pos: Option<usize>)
        ensures
            match pos {
                Some(i) => i < self.entries@.len() && self.entries@[i as int].0 == *key,
                None => !has_key(self.entries@, *key),
            },
    {
        let mut i: usize = 0;
        while i < self.entries.len()
            invariant
                i <= self.entries@.len(),
                forall|j: int| 0 <= j < i ==> self.entries@[j].0 != *key,
            decreases self.entries@.len() - i,
        {
            if self.entries[i].0 == *key {
                return Some(i);
            }
            i += 1;
        }
        None
    }

    /// Binds `key` to `value`; answers what it was bound to before, if anything.
    pub fn insert(&mut self, key: Keybind, value: A) -> (previous: Option<A>)
        requires
            old(self).wf(),
        ensures
            final(self).wf(),
            final(self)@ == old(self)@.insert(key, value),
            previous == (if old(self)@.dom().contains(key) {
                Some(old(self)@[key])
            } else {
                None
            }),
    {
        let ghost s = self.entries@;
        match self.find(&key) {
            Some(i) => {
                proof {
                    lemma_value_at(s, i as int);
                }
                let (_k, previous) = self.entries.remove(i);
                self.entries.push((key, value));
                proof {
                    let t = self.entries@;
                    assert(t =~= s.remove(i as int).push((key, value)));
                    assert forall|a: int, b: int| 0 <= a < t.len() && 0 <= b < t.len() && a != b implies t[a].0 != t[b].0 by {
                        let a2 = if a < i { a } else { a + 1 };
                        let b2 = if b < i { b } else { b + 1 };
                        if a < t.len() - 1 && b < t.len() - 1 {
                            assert(t[a] == s[a2]);
                            assert(t[b] == s[b2]);
                        } else if a < t.len() - 1 {
                            assert(t[a] == s[a2]);
                            assert(a2 != i);
                        } else {
                            assert(t[b] == s[b2]);
                            assert(b2 != i);
                        }
                    }
                    assert forall|k: Keybind| #[trigger] entries_map(t).dom().contains(k) <==> entries_map(s).insert(key, value).dom().contains(k) by {
                        if has_key(t, k) {
                            let j = choose|j: int| 0 <= j < t.len() && t[j].0 == k;
                            if j < t.len() - 1 {
                                let j2 = if j < i { j } else { j + 1 };
                                assert(t[j] == s[j2]);
                            }
                        }
                        if has_key(s, k) {
                            let j = choose|j: int| 0 <= j < s.len() && s[j].0 == k;
                            if j < i {
                                assert(t[j] == s[j]);
                            } else if j > i {
                                assert(t[j - 1] == s[j]);
                            } else {
                                assert(t[t.len() - 1].0 == key);
                            }
                        }
                        if k == key {
                            assert(t[t.len() - 1].0 == key);
                        }
                    }
                    assert forall|k: Keybind| #[trigger] entries_map(t).dom().contains(k) implies entries_map(t)[k] == entries_map(s).insert(key, value)[k] by {
                        let j = choose|j: int| 0 <= j < t.len() && t[j].0 == k;
                        lemma_value_at(t, j);
                        if j < t.len() - 1 {
                            let j2 = if j < i { j } else { j + 1 };
                            assert(t[j] == s[j2]);
                            lemma_value_at(s, j2);
                            assert(j2 != i);
                        }
                    }
                    assert(entries_map(t) =~= entries_map(s).insert(key, value));
                }
                Some(previous)
            },
            None => {
                self.entries.push((key, value));
                proof {
                    let t = self.entries@;
                    assert(t =~= s.push((key, value)));
                    assert forall|a: int, b: int| 0 <= a < t.len() && 0 <= b < t.len() && a != b implies t[a].0 != t[b].0 by {
                        if a < s.len() && b < s.len() {
                            assert(t[a] == s[a]);
                            assert(t[b] == s[b]);
                        } else if a < s.len() {
                            assert(t[a] == s[a]);
                        } else {
                            assert(t[b] == s[b]);
                        }
                    }
                    assert forall|k: Keybind| #[trigger] entries_map(t).dom().contains(k) <==> entries_map(s).insert(key, value).dom().contains(k) by {
                        if has_key(t, k) {
                            let j = choose|j: int| 0 <= j < t.len() && t[j].0 == k;
                            if j < s.len() {
                                assert(t[j] == s[j]);
                            }
                        }
                        if has_key(s, k) {
                            let j = choose|j: int| 0 <= j < s.len() && s[j].0 == k;
                            assert(t[j] == s[j]);
                        }
                        if k == key {
                            assert(t[s.len() as int].0 == key);
                        }
                    }
                    assert forall|k: Keybind| #[trigger] entries_map(t).dom().contains(k) implies entries_map(t)[k] == entries_map(s).insert(key, value)[k] by {
                        let j = choose|j: int| 0 <= j < t.len() && t[j].0 == k;
                        lemma_value_at(t, j);
                        if j < s.len() {
                            assert(t[j] == s[j]);
                            lemma_value_at(s, j);
                        }
                    }
                    assert(entries_map(t) =~= entries_map(s).insert(key, value));
                }
                None
            },
        }
    }

    /// What `key` is bound to.
    pub fn get(&self, key: &Keybind) -> (value: Option<&A>)
        requires
            self.wf(),
        ensures
            match value {
                Some(v) => self@.dom().contains(*key) && *v == self@[*key],
                None => !self@.dom().contains(*key),
            },
    {
        match self.find(key) {
            Some(i) => {
                proof {
                    lemma_value_at(self.entries@, i as int);
                }
                Some(&self.entries[i].1)
            },
            None => None,
        }
    }

    /// Whether `key` is bound.
    pub fn contains_key(&self, key: &Keybind) -> (b: bool)
        ensures
            b == self@.dom().contains(*key),
    {
        match self.find(key) {
            Some(i) => {
                assert(has_key(self.entries@, *key));
                true
            },
            None => false,
        }
    }

    /// The bound keybinds, each once.
    pub fn keys(&self) -> (keys: Vec<Keybind>)
        ensures
            keys@ == self.key_order(),
            keys@.to_set() == self@.dom(),
    {
        let mut keys: Vec<Keybind> = Vec::new();
        let mut i: usize = 0;
        while i < self.entries.len()
            invariant
                i <= self.entries@.len(),
                keys@ == self.entries@.subrange(0, i as int).map_values(|e: (Keybind, A)| e.0),
            decreases self.entries@.len() - i,
        {
            keys.push(self.entries[i].0);
            proof {
                assert(self.entries@.subrange(0, i + 1).map_values(|e: (Keybind, A)| e.0) =~= keys@);
            }
            i += 1;
        }
        assert(self.entries@.subrange(0, self.entries@.len() as int) =~= self.entries@);
        assert forall|k: Keybind| keys@.to_set().contains(k) <==> self@.dom().contains(k) by {
            if keys@.contains(k) {
                let j = choose|j: int| 0 <= j < keys@.len() && keys@[j] == k;
                assert(self.entries@[j].0 == k);
            }
            if has_key(self.entries@, k) {
                let j = choose|j: int| 0 <= j < self.entries@.len() && self.entries@[j].0 == k;
                assert(keys@[j] == k);
            }
        }
        assert(keys@.to_set() =~= self@.dom());
        keys
    }

    /// Number of bindings.
    pub fn len(&self) -> (n: usize)
        ensures
            n == self.key_order().len(),
    {
        self.entries.len()
    }
}

/// Binding a keybind makes it trigger the new value, and leaves every other
/// keybind bound (or not) to what it was.
pub proof fn law_binding_read_after_write<A>(bindings: Map<Keybind, A>, key: Keybind, value: A, other: Keybind)
    ensures
        bindings.insert(key, value).dom().contains(key),
        bindings.insert(key, value)[key] == value,
        other != key ==> (bindings.insert(key, value).dom().contains(other) == bindings.dom().contains(other)),
        other != key && bindings.dom().contains(other) ==> bindings.insert(key, value)[other] == bindings[other],
{
}

} // verus!
