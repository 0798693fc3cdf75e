//! Header fields that have no field of their own: a map from names to
//! values that keeps the order in which names first arrived.

use vstd::prelude::*;
use vstd::string::*;

verus! {

/// The entry of `key` in a list of entries, if any.
pub open spec fn entry_index(es: Seq<(Seq<char>, Seq<char>)>, key: Seq<char>) -> Option<int> {
    if exists|i: int| 0 <= i < es.len() && (#[trigger] es[i]).0 == key {
        Some(choose|i: int| 0 <= i < es.len() && (#[trigger] es[i]).0 == key)
    } else {
        None
    }
}

/// No name occurs twice.
pub open spec fn keys_distinct(es: Seq<(Seq<char>, Seq<char>)>) -> bool {
    forall|i: int, j: int| 0 <= i < j < es.len() ==> (#[trigger] es[i]).0 != (#[trigger] es[j]).0
}

/// The entries after setting `key` to `value`: the value of an existing entry
/// is replaced in place, a new name is added at the end.
pub open spec fn entries_insert(es: Seq<(Seq<char>, Seq<char>)>, key: Seq<char>, value: Seq<char>) -> Seq<
    (Seq<char>, Seq<char>),
> {
    match entry_index(es, key) {
        Some(i) => es.update(i, (key, value)),
        None => es.push((key, value)),
    }
}

/// The value of `key` among the entries, if any.
pub open spec fn entries_get(es: Seq<(Seq<char>, Seq<char>)>, key: Seq<char>) -> Option<Seq<char>> {
    match entry_index(es, key) {
        Some(i) => Some(es[i].1),
        None => None,
    }
}

/// A map from header names to values, in the order in which names were first inserted.
#[derive(Debug)]
pub struct HeaderMap {
    entries: Vec<(String, String)>,
}

impl View for HeaderMap {
    type V = Seq<(Seq<char>, Seq<char>)>;

    closed spec fn view(&self) -> Seq<(Seq<char>, Seq<char>)> {
        self.entries@.map_values(|e: (String, String)| (e.0@, e.1@))
    }
}

impl HeaderMap {
    #[verifier::type_invariant]
    spec fn well_formed(self) -> bool {
        keys_distinct(self@)
    }

    /// An empty map.
    pub fn new() -> (m: HeaderMap)
        ensures
            m@ == Seq::<(Seq<char>, Seq<char>)>::empty(),
    {
        let m = HeaderMap { entries: Vec::new() };
        assert(m@ =~= Seq::<(Seq<char>, Seq<char>)>::empty());
        m
    }

    /// The number of names.
    pub fn len(&self) -> (n: usize)
        ensures
            n == self@.len(),
    {
        self.entries.len()
    }

    /// Whether there is no name.
    pub fn is_empty(&self) -> (b: bool)
        ensures
            b == (self@.len() == 0),
    {
        self.entries.len() == 0
    }

    /// Where `key` stands, if anywhere.
    fn position(&self, key: &String) -> (r: Option<usize>)
        ensures
            r matches Some(i) ==> entry_index(self@, key@) == Some(i as int) && i < self@.len(),
            r is None ==> entry_index(self@, key@) is None,
    {
        proof {
            use_type_invariant(self);
        }
        let mut i: usize = 0;
        while i < self.entries.len()
            invariant
                i <= self@.len(),
                self.entries@.len() == self@.len(),
                keys_distinct(self@),
                forall|j: int| 0 <= j < i ==> (#[trigger] self@[j]).0 != key@,
            decreases self@.len() - i,
        {
            assert(self@[i as int].0 == self.entries@[i as int].0@);
            if self.entries[i].0 == *key {
                assert(self@[i as int].0 == key@);
                let ghost k = choose|j: int| 0 <= j < self@.len() && (#[trigger] self@[j]).0 == key@;
                assert(keys_distinct(self@));
                assert(k == i) by {
                    if k < i {
                        assert(self@[k].0 != self@[i as int].0);
                    } else if k > i {
                        assert(self@[i as int].0 != self@[k].0);
                    }
                }
                return Some(i);
            }
            i = i + 1;
        }
        None
    }

    /// The value of `key`, if the map has it.
    pub fn get(&self, key: &str) -> (v: Option<&String>)
        ensures
            match v {
                Some(s) => entries_get(self@, key@) == Some(s@),
                None => entries_get(self@, key@) is None,
            },
    {
        let k = key.to_owned();
        match self.position(&k) {
            Some(i) => {
                assert(self@[i as int].1 == self.entries@[i as int].1@);
                Some(&self.entries[i].1)
            },
            None => None,
        }
    }

    /// Whether the map has `key`.
    pub fn contains_key(&self, key: &str) -> (b: bool)
        ensures
            b == (entries_get(self@, key@) is Some),
    {
        self.get(key).is_some()
    }

    /// Sets `key` to `value`: an existing entry keeps its place, a new name
    /// goes last.
    pub fn insert(&mut self, key: String, value: String)
        ensures
            final(self)@ == entries_insert(old(self)@, key@, value@),
    {
        proof {
            use_type_invariant(&*self);
        }
        let ghost before = self@;
        match self.position(&key) {
            Some(i) => {
                let mut entries: Vec<(String, String)> = Vec::new();
                std::mem::swap(&mut entries, &mut self.entries);
                assert(entries@.map_values(|e: (String, String)| (e.0@, e.1@)) == before);
                entries.set(i, (key, value));
                let ghost after = entries@.map_values(|e: (String, String)| (e.0@, e.1@));
                assert(after =~= before.update(i as int, (key@, value@)));
                assert(keys_distinct(after)) by {
                    assert forall|a: int, b: int| 0 <= a < b < after.len() implies (#[trigger] after[a]).0
                        != (#[trigger] after[b]).0 by {
                        assert(before[a].0 != before[b].0);
                    }
                }
                self.entries = entries;
            },
            None => {
                let mut entries: Vec<(String, String)> = Vec::new();
                std::mem::swap(&mut entries, &mut self.entries);
                assert(entries@.map_values(|e: (String, String)| (e.0@, e.1@)) == before);
                entries.push((key, value));
                let ghost after = entries@.map_values(|e: (String, String)| (e.0@, e.1@));
                assert(after =~= before.push((key@, value@)));
                assert(keys_distinct(after)) by {
                    assert forall|a: int, b: int| 0 <= a < b < after.len() implies (#[trigger] after[a]).0
                        != (#[trigger] after[b]).0 by {
                        if b == before.len() {
                            assert(!(0 <= a < before.len() && before[a].0 == key@));
                        } else {
                            assert(before[a].0 != before[b].0);
                        }
                    }
                }
                self.entries = entries;
            },
        }
    }

    /// The name and value of the `i`-th entry.
    pub fn entry(&self, i: usize) -> (e: (&String, &String))
        requires
            i < self@.len(),
        ensures
            (e.0@, e.1@) == self@[i as int],
    {
        let e = &self.entries[i];
        (&e.0, &e.1)
    }
}

impl Default for HeaderMap {
    /// An empty map.
    fn default() -> (m: HeaderMap)
        ensures
            m@ == Seq::<(Seq<char>, Seq<char>)>::empty(),
    {
        HeaderMap::new()
    }
}

impl Clone for HeaderMap {
    /// The same entries.
    fn clone(&self) -> (m: HeaderMap)
        ensures
            m@ == self@,
    {
        proof {
            use_type_invariant(self);
        }
        let mut entries: Vec<(String, String)> = Vec::new();
        let mut i: usize = 0;
        while i < self.entries.len()
            invariant
                i <= self.entries@.len(),
                self.entries@.len() == self@.len(),
                entries@.len() == i,
                forall|j: int| 0 <= j < i ==> (#[trigger] entries@[j]).0@ == self@[j].0 && entries@[j].1@ == self@[j].1,
            decreases self.entries@.len() - i,
        {
            let e = &self.entries[i];
            entries.push((e.0.clone(), e.1.clone()));
            i = i + 1;
        }
        let m = HeaderMap { entries };
        assert(m@ =~= self@);
        m
    }
}

/// Reading a name back after setting it gives the value just set, and every
/// other name keeps its value: the map behaves as a map.
pub proof fn lemma_entries_insert_get(
    es: Seq<(Seq<char>, Seq<char>)>,
    key: Seq<char>,
    value: Seq<char>,
    other: Seq<char>,
)
    requires
        keys_distinct(es),
    ensures
        entries_get(entries_insert(es, key, value), key) == Some(value),
        other != key ==> entries_get(entries_insert(es, key, value), other) == entries_get(es, other),
        keys_distinct(entries_insert(es, key, value)),
{
    let after = entries_insert(es, key, value);
    match entry_index(es, key) {
        Some(i) => {
            assert(after[i].0 == key);
            assert(entry_index(after, key) == Some(i)) by {
                let k = choose|j: int| 0 <= j < after.len() && (#[trigger] after[j]).0 == key;
                if k != i {
                    assert(es[k].0 == key);
                    if k < i {
                        assert(es[k].0 != es[i].0);
                    } else {
                        assert(es[i].0 != es[k].0);
                    }
                }
            }
            if other != key {
                assert forall|j: int| 0 <= j < es.len() implies ((#[trigger] after[j]).0 == other) == (es[j].0 == other) by {
                    if j == i {
                    } else {
                        assert(after[j] == es[j]);
                    }
                }
                if entry_index(es, other) is Some {
                    let a = choose|j: int| 0 <= j < es.len() && (#[trigger] es[j]).0 == other;
                    assert(after[a].0 == other);
                    let b = choose|j: int| 0 <= j < after.len() && (#[trigger] after[j]).0 == other;
                    assert(es[b].0 == other);
                    if a != b {
                        if a < b {
                            assert(es[a].0 != es[b].0);
                        } else {
                            assert(es[b].0 != es[a].0);
                        }
                    }
                    assert(after[b] == es[b]);
                } else {
                    assert(!(exists|j: int| 0 <= j < after.len() && (#[trigger] after[j]).0 == other));
                }
            }
            assert forall|a: int, b: int| 0 <= a < b < after.len() implies (#[trigger] after[a]).0
                != (#[trigger] after[b]).0 by {
                assert(es[a].0 != es[b].0);
            }
        },
        None => {
            let n = es.len() as int;
            assert(after[n].0 == key);
            assert(entry_index(after, key) == Some(n)) by {
                let k = choose|j: int| 0 <= j < after.len() && (#[trigger] after[j]).0 == key;
                if k < n {
                    assert(es[k].0 == key);
                }
            }
            if other != key {
                assert forall|j: int| 0 <= j < after.len() implies ((#[trigger] after[j]).0 == other) == (j < n && es[j].0 == other) by {
                    if j < n {
                        assert(after[j] == es[j]);
                    }
                }
                if entry_index(es, other) is Some {
                    let a = choose|j: int| 0 <= j < es.len() && (#[trigger] es[j]).0 == other;
                    assert(after[a].0 == other);
                    let b = choose|j: int| 0 <= j < after.len() && (#[trigger] after[j]).0 == other;
                    assert(b < n);
                    if a != b {
                        if a < b {
                            assert(es[a].0 != es[b].0);
                        } else {
                            assert(es[b].0 != es[a].0);
                        }
                    }
                } else {
                    assert(!(exists|j: int| 0 <= j < after.len() && (#[trigger] after[j]).0 == other));
                }
            }
            assert forall|a: int, b: int| 0 <= a < b < after.len() implies (#[trigger] after[a]).0
                != (#[trigger] after[b]).0 by {
                if b == n {
                    assert(!(0 <= a < n && es[a].0 == key));
                } else {
                    assert(es[a].0 != es[b].0);
                }
            }
        },
    }
}

} // verus!
