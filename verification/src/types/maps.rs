//! A map keyed by dataset type.

use crate::types::datatypes::Datatype;
use vstd::prelude::*;

verus! {

/// A finite map from dataset types to values. Each dataset type has at most
/// one entry; entries keep the order in which their keys first came in.
#[derive(Debug)]
pub struct DatatypeMap<V> {
    entries: Vec<(Datatype, V)>,
}

/// Whether `i` is a position of `entries` that holds `key`.
pub open spec fn holds_at<V>(entries: Seq<(Datatype, V)>, key: Datatype, i: int) -> bool {
    0 <= i < entries.len() && entries[i].0 == key
}

/// Whether no key stands at two positions of `entries`.
pub open spec fn distinct_keys<V>(entries: Seq<(Datatype, V)>) -> bool {
    forall|i: int, j: int|
        0 <= i < j < entries.len() ==> (#[trigger] entries[i]).0 != (#[trigger] entries[j]).0
}

/// The map that a list of entries with distinct keys stands for.
pub open spec fn entries_map<V>(entries: Seq<(Datatype, V)>) -> Map<Datatype, V> {
    Map::new(
        |key: Datatype| exists|i: int| holds_at(entries, key, i),
        |key: Datatype| entries[choose|i: int| holds_at(entries, key, i)].1,
    )
}

proof fn lemma_entry<V>(entries: Seq<(Datatype, V)>, i: int)
    requires
        distinct_keys(entries),
        0 <= i < entries.len(),
    ensures
        entries_map(entries).contains_key(entries[i].0),
        entries_map(entries)[entries[i].0] == entries[i].1,
{
    let key = entries[i].0;
    assert(holds_at(entries, key, i));
    let chosen = choose|j: int| holds_at(entries, key, j);
    assert(holds_at(entries, key, chosen));
    assert(chosen == i);
}

proof fn lemma_absent<V>(entries: Seq<(Datatype, V)>, key: Datatype)
    requires
        forall|i: int| 0 <= i < entries.len() ==> (#[trigger] entries[i]).0 != key,
    ensures
        !entries_map(entries).contains_key(key),
{
    assert forall|i: int| !holds_at(entries, key, i) by {
        if 0 <= i < entries.len() {
            assert(entries[i].0 != key);
        }
    }
}

proof fn lemma_push<V>(entries: Seq<(Datatype, V)>, key: Datatype, value: V)
    requires
        distinct_keys(entries),
        !entries_map(entries).contains_key(key),
    ensures
        distinct_keys(entries.push((key, value))),
        entries_map(entries.push((key, value))) == entries_map(entries).insert(key, value),
{
    let after = entries.push((key, value));
    assert forall|i: int| 0 <= i < entries.len() implies (#[trigger] entries[i]).0 != key by {
        assert(holds_at(entries, entries[i].0, i));
    }
    assert(distinct_keys(after));
    assert forall|k: Datatype|
        entries_map(after).contains_key(k) == entries_map(entries).insert(
            key,
            value,
        ).contains_key(k) by {
        if k == key {
            assert(holds_at(after, k, entries.len() as int));
        } else {
            if exists|i: int| holds_at(entries, k, i) {
                let i = choose|i: int| holds_at(entries, k, i);
                assert(holds_at(after, k, i));
            }
            if exists|i: int| holds_at(after, k, i) {
                let i = choose|i: int| holds_at(after, k, i);
                assert(holds_at(entries, k, i));
            }
        }
    }
    assert forall|k: Datatype| entries_map(after).contains_key(k) implies entries_map(after)[k]
        == entries_map(entries).insert(key, value)[k] by {
        let i = choose|i: int| holds_at(after, k, i);
        lemma_entry(after, i);
        if k != key {
            lemma_entry(entries, i);
        }
    }
    assert(entries_map(after) =~= entries_map(entries).insert(key, value));
}

proof fn lemma_update<V>(entries: Seq<(Datatype, V)>, at: int, value: V)
    requires
        distinct_keys(entries),
        0 <= at < entries.len(),
    ensures
        distinct_keys(entries.update(at, (entries[at].0, value))),
        entries_map(entries.update(at, (entries[at].0, value))) == entries_map(entries).insert(
            entries[at].0,
            value,
        ),
{
    let key = entries[at].0;
    let after = entries.update(at, (key, value));
    assert(distinct_keys(after)) by {
        assert forall|i: int, j: int| 0 <= i < j < after.len() implies (#[trigger] after[i]).0 != (
        #[trigger] after[j]).0 by {
            assert(after[i].0 == entries[i].0);
            assert(after[j].0 == entries[j].0);
        }
    }
    assert forall|k: Datatype|
        entries_map(after).contains_key(k) == entries_map(entries).insert(
            key,
            value,
        ).contains_key(k) by {
        if k == key {
            assert(holds_at(after, k, at));
        } else {
            if exists|i: int| holds_at(entries, k, i) {
                let i = choose|i: int| holds_at(entries, k, i);
                assert(holds_at(after, k, i));
            }
            if exists|i: int| holds_at(after, k, i) {
                let i = choose|i: int| holds_at(after, k, i);
                assert(holds_at(entries, k, i));
            }
        }
    }
    assert forall|k: Datatype| entries_map(after).contains_key(k) implies entries_map(after)[k]
        == entries_map(entries).insert(key, value)[k] by {
        let i = choose|i: int| holds_at(after, k, i);
        lemma_entry(after, i);
        if k != key {
            lemma_entry(entries, i);
        }
    }
    assert(entries_map(after) =~= entries_map(entries).insert(key, value));
}

impl<V> View for DatatypeMap<V> {
    type V = Map<Datatype, V>;

    closed spec fn view(&self) -> Map<Datatype, V> {
        entries_map(self.entries@)
    }
}

impl<V> DatatypeMap<V> {
    #[verifier::type_invariant]
    spec fn well_formed(&self) -> bool {
        distinct_keys(self.entries@)
    }

    /// The keys of the map, in the order in which they first came in.
    pub closed spec fn spec_keys(&self) -> Seq<Datatype> {
        self.entries@.map_values(|entry: (Datatype, V)| entry.0)
    }

    proof fn lemma_keys(&self)
        requires
            self.well_formed(),
        ensures
            self.spec_keys().no_duplicates(),
            forall|key: Datatype| self.spec_keys().contains(key) <==> self@.contains_key(key),
    {
        let keys = self.spec_keys();
        assert forall|i: int, j: int|
            0 <= i < keys.len() && 0 <= j < keys.len() && i != j implies keys[i] != keys[j] by {
            if i < j {
                assert(self.entries@[i].0 != self.entries@[j].0);
            } else {
                assert(self.entries@[j].0 != self.entries@[i].0);
            }
        }
        assert forall|key: Datatype| keys.contains(key) <==> self@.contains_key(key) by {
            if keys.contains(key) {
                let i = choose|i: int| 0 <= i < keys.len() && keys[i] == key;
                assert(holds_at(self.entries@, key, i));
            }
            if self@.contains_key(key) {
                let i = choose|i: int| holds_at(self.entries@, key, i);
                assert(keys[i] == key);
            }
        }
    }

    /// The empty map.
    pub fn new() -> (map: Self)
        ensures
            map@ == Map::<Datatype, V>::empty(),
            map.spec_keys() == Seq::<Datatype>::empty(),
    {
        let map = DatatypeMap { entries: Vec::new() };
        proof {
            assert forall|key: Datatype| !entries_map(map.entries@).contains_key(key) by {
                lemma_absent(map.entries@, key);
            }
            assert(map@ =~= Map::<Datatype, V>::empty());
            assert(map.spec_keys() =~= Seq::<Datatype>::empty());
        }
        map
    }

    fn position(&self, key: Datatype) -> (at: Option<usize>)
        ensures
            match at {
                Some(i) => holds_at(self.entries@, key, i as int),
                None => !self@.contains_key(key),
            },
    {
        let mut i: usize = 0;
        while i < self.entries.len()
            invariant
                i <= self.entries.len(),
                forall|j: int| 0 <= j < i ==> (#[trigger] self.entries@[j]).0 != key,
            decreases self.entries.len() - i,
        {
            if self.entries[i].0 == key {
                return Some(i);
            }
            i += 1;
        }
        proof {
            lemma_absent(self.entries@, key);
        }
        None
    }

    /// How many entries the map holds.
    pub fn len(&self) -> (len: usize)
        ensures
            len == self@.dom().len(),
            self@.dom().finite(),
    {
        proof {
            use_type_invariant(self);
            self.lemma_keys();
            let keys = self.spec_keys();
            keys.unique_seq_to_set();
            assert(keys.to_set() =~= self@.dom());
        }
        self.entries.len()
    }

    /// Whether the map holds an entry for `key`.
    pub fn contains_key(&self, key: &Datatype) -> (found: bool)
        ensures
            found == self@.contains_key(*key),
    {
        match self.position(*key) {
            Some(i) => {
                proof {
                    use_type_invariant(self);
                    lemma_entry(self.entries@, i as int);
                }
                true
            },
            None => false,
        }
    }

    /// The value that the map holds for `key`, if any.
    pub fn get(&self, key: &Datatype) -> (value: Option<&V>)
        ensures
            match value {
                Some(v) => self@.contains_key(*key) && *v == self@[*key],
                None => !self@.contains_key(*key),
            },
    {
        match self.position(*key) {
            Some(i) => {
                proof {
                    use_type_invariant(self);
                    lemma_entry(self.entries@, i as int);
                }
                Some(&self.entries[i].1)
            },
            None => None,
        }
    }

    /// Sets the value for `key`, replacing the one that was there. A key
    /// that is new to the map goes to the end of its keys; a key that was
    /// there keeps its place.
    pub fn insert(&mut self, key: Datatype, value: V)
        ensures
            final(self)@ == old(self)@.insert(key, value),
            final(self).spec_keys() == if old(self)@.contains_key(key) {
                old(self).spec_keys()
            } else {
                old(self).spec_keys().push(key)
            },
    {
        proof {
            use_type_invariant(&*self);
        }
        let at = self.position(key);
        let ghost keys = self.spec_keys();
        let mut entries = Vec::new();
        std::mem::swap(&mut entries, &mut self.entries);
        let ghost before = entries@;
        match at {
            Some(i) => {
                proof {
                    lemma_entry(before, i as int);
                    lemma_update(before, i as int, value);
                }
                entries.set(i, (key, value));
                assert(entries@.map_values(|entry: (Datatype, V)| entry.0) =~= keys);
            },
            None => {
                proof {
                    lemma_push(before, key, value);
                }
                entries.push((key, value));
                assert(entries@.map_values(|entry: (Datatype, V)| entry.0) =~= keys.push(key));
            },
        }
        self.entries = entries;
    }

    /// The keys of the map, in the order in which they first came in.
    pub fn keys(&self) -> (keys: Vec<Datatype>)
        ensures
            keys@ == self.spec_keys(),
            keys@.no_duplicates(),
            forall|key: Datatype| keys@.contains(key) <==> self@.contains_key(key),
    {
        let mut keys: Vec<Datatype> = Vec::new();
        let mut i: usize = 0;
        while i < self.entries.len()
            invariant
                i <= self.entries.len(),
                keys@ == self.spec_keys().take(i as int),
            decreases self.entries.len() - i,
        {
            keys.push(self.entries[i].0);
            assert(keys@ =~= self.spec_keys().take(i + 1));
            i += 1;
        }
        proof {
            use_type_invariant(self);
            self.lemma_keys();
            assert(keys@ =~= self.spec_keys());
        }
        keys
    }
}

} // verus!
