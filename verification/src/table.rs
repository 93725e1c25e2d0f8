//! A small map from account addresses to values.
//!
//! The ledger keeps its accounts in such maps. An address occurs at most once,
//! so a map stands for a mathematical map from the 32 bytes of an address to
//! the value stored under it.

use vstd::prelude::*;
use crate::address::Address;

verus! {

/// One address and what is stored under it.
struct Entry<V> {
    key: Address,
    value: V,
}

/// Whether some entry has this key.
spec fn has_key<V>(entries: Seq<Entry<V>>, key: Seq<u8>) -> bool {
    exists|i: int| 0 <= i < entries.len() && (#[trigger] entries[i]).key@ == key
}

/// The position of an entry with this key.
spec fn index_of<V>(entries: Seq<Entry<V>>, key: Seq<u8>) -> int {
    choose|i: int| 0 <= i < entries.len() && (#[trigger] entries[i]).key@ == key
}

/// No address occurs twice.
spec fn distinct<V>(entries: Seq<Entry<V>>) -> bool {
    forall|i: int, j: int|
        0 <= i < j < entries.len() ==> (#[trigger] entries[i]).key@ != (#[trigger] entries[j]).key@
}

/// The map that the entries stand for.
spec fn map_of<V: View>(entries: Seq<Entry<V>>) -> Map<Seq<u8>, V::V> {
    Map::new(
        |key: Seq<u8>| has_key(entries, key),
        |key: Seq<u8>| entries[index_of(entries, key)].value@,
    )
}

/// The entry at a position is what the map holds under that entry's key.
proof fn lemma_entry<V: View>(entries: Seq<Entry<V>>, i: int)
    requires
        distinct(entries),
        0 <= i < entries.len(),
    ensures
        map_of(entries).dom().contains(entries[i].key@),
        map_of(entries)[entries[i].key@] == entries[i].value@,
        index_of(entries, entries[i].key@) == i,
{
    let key = entries[i].key@;
    assert(has_key(entries, key));
    let j = index_of(entries, key);
    assert(0 <= j < entries.len() && entries[j].key@ == key);
    if j < i {
        assert(entries[j].key@ != entries[i].key@);
    } else if i < j {
        assert(entries[i].key@ != entries[j].key@);
    }
}

/// Replacing the value of an entry replaces what the map holds under its key.
proof fn lemma_update<V: View>(entries: Seq<Entry<V>>, i: int, entry: Entry<V>)
    requires
        distinct(entries),
        0 <= i < entries.len(),
        entries[i].key@ == entry.key@,
    ensures
        distinct(entries.update(i, entry)),
        map_of(entries.update(i, entry)) == map_of(entries).insert(entry.key@, entry.value@),
{
    let after = entries.update(i, entry);
    assert(distinct(after)) by {
        assert forall|a: int, b: int| 0 <= a < b < after.len() implies (#[trigger] after[a]).key@
            != (#[trigger] after[b]).key@ by {
            assert(entries[a].key@ != entries[b].key@);
        }
    }
    assert forall|k: Seq<u8>| #[trigger] has_key(after, k) == has_key(entries, k) by {
        if has_key(after, k) {
            let j = index_of(after, k);
            assert(entries[j].key@ == k);
        }
        if has_key(entries, k) {
            let j = index_of(entries, k);
            assert(after[j].key@ == k);
        }
    }
    lemma_entry(entries, i);
    assert forall|k: Seq<u8>| has_key(after, k) implies map_of(after)[k] == map_of(
        entries,
    ).insert(entry.key@, entry.value@)[k] by {
        let j = index_of(after, k);
        lemma_entry(after, j);
        if k != entry.key@ {
            lemma_entry(entries, j);
        } else {
            lemma_entry(after, i);
        }
    }
    assert(map_of(after) =~= map_of(entries).insert(entry.key@, entry.value@));
}

/// Adding an entry under a new key adds it to the map.
proof fn lemma_push<V: View>(entries: Seq<Entry<V>>, entry: Entry<V>)
    requires
        distinct(entries),
        forall|i: int| 0 <= i < entries.len() ==> (#[trigger] entries[i]).key@ != entry.key@,
    ensures
        distinct(entries.push(entry)),
        map_of(entries.push(entry)) == map_of(entries).insert(entry.key@, entry.value@),
{
    let after = entries.push(entry);
    let last = entries.len() as int;
    assert(distinct(after)) by {
        assert forall|a: int, b: int| 0 <= a < b < after.len() implies (#[trigger] after[a]).key@
            != (#[trigger] after[b]).key@ by {
            if b < last {
                assert(entries[a].key@ != entries[b].key@);
            } else {
                assert(entries[a].key@ != entry.key@);
            }
        }
    }
    assert forall|k: Seq<u8>| #[trigger]
        has_key(after, k) == (has_key(entries, k) || k == entry.key@) by {
        if has_key(after, k) {
            let j = index_of(after, k);
            if j < last {
                assert(entries[j].key@ == k);
            }
        }
        if has_key(entries, k) {
            let j = index_of(entries, k);
            assert(after[j].key@ == k);
        }
        if k == entry.key@ {
            assert(after[last].key@ == k);
        }
    }
    assert forall|k: Seq<u8>| has_key(after, k) implies map_of(after)[k] == map_of(
        entries,
    ).insert(entry.key@, entry.value@)[k] by {
        let j = index_of(after, k);
        lemma_entry(after, j);
        if j < last {
            assert(after[j] == entries[j]);
            lemma_entry(entries, j);
        } else {
            assert(after[j].value@ == entry.value@);
        }
    }
    assert(map_of(after).dom() =~= map_of(entries).insert(entry.key@, entry.value@).dom());
    assert(map_of(after) =~= map_of(entries).insert(entry.key@, entry.value@));
}

/// A map from addresses to values of type `V`.
pub struct AddressMap<V> {
    entries: Vec<Entry<V>>,
}

impl<V: View> View for AddressMap<V> {
    type V = Map<Seq<u8>, V::V>;

    closed spec fn view(&self) -> Map<Seq<u8>, V::V> {
        map_of(self.entries@)
    }
}

impl<V> AddressMap<V> {
    /// No address occurs twice.
    #[verifier::type_invariant]
    spec fn keys_are_distinct(&self) -> bool {
        distinct(self.entries@)
    }

    /// The position of the entry with this key, if there is one.
    fn position(entries: &Vec<Entry<V>>, key: &Address) -> (found: Option<usize>)
        ensures
            match found {
                Some(i) => i < entries.len() && entries[i as int].key@ == key@,
                None => forall|i: int|
                    0 <= i < entries.len() ==> (#[trigger] entries[i]).key@ != key@,
            },
    {
        let mut i: usize = 0;
        while i < entries.len()
            invariant
                i <= entries.len(),
                forall|j: int| 0 <= j < i ==> (#[trigger] entries[j]).key@ != key@,
            decreases entries.len() - i,
        {
            if entries[i].key == *key {
                return Some(i);
            }
            proof {
                Address::lemma_view_injective(entries[i as int].key, *key);
            }
            i = i + 1;
        }
        None
    }
}

impl<V: View> AddressMap<V> {
    /// A map without entries.
    pub fn new() -> (map: AddressMap<V>)
        ensures
            map@ == Map::<Seq<u8>, V::V>::empty(),
    {
        let map = AddressMap { entries: Vec::new() };
        assert(map@ =~= Map::<Seq<u8>, V::V>::empty());
        map
    }

    /// Whether the map holds a value under `key`.
    pub fn contains_key(&self, key: &Address) -> (present: bool)
        ensures
            present == self@.dom().contains(key@),
    {
        proof {
            use_type_invariant(self);
        }
        match Self::position(&self.entries, key) {
            Some(i) => {
                proof {
                    lemma_entry(self.entries@, i as int);
                }
                true
            },
            None => false,
        }
    }

    /// The value stored under `key`, if there is one.
    pub fn get(&self, key: &Address) -> (found: Option<&V>)
        ensures
            match found {
                Some(value) => self@.dom().contains(key@) && self@[key@] == value@,
                None => !self@.dom().contains(key@),
            },
    {
        proof {
            use_type_invariant(self);
        }
        match Self::position(&self.entries, key) {
            Some(i) => {
                proof {
                    lemma_entry(self.entries@, i as int);
                }
                Some(&self.entries[i].value)
            },
            None => None,
        }
    }

    /// Stores `value` under `key`, in place of what was stored there before.
    pub fn insert(&mut self, key: Address, value: V)
        ensures
            final(self)@ == old(self)@.insert(key@, value@),
    {
        proof {
            use_type_invariant(&*self);
        }
        let mut entries: Vec<Entry<V>> = Vec::new();
        std::mem::swap(&mut entries, &mut self.entries);
        let entry = Entry { key, value };
        match Self::position(&entries, &key) {
            Some(i) => {
                proof {
                    lemma_update(entries@, i as int, entry);
                }
                entries.set(i, entry);
            },
            None => {
                proof {
                    lemma_push(entries@, entry);
                }
                entries.push(entry);
            },
        }
        self.entries = entries;
    }
}

impl<V: View + Copy> AddressMap<V> {
    /// A copy of the map, to work on while the map itself stays as it is.
    pub fn duplicate(&self) -> (copy: AddressMap<V>)
        ensures
            copy@ == self@,
    {
        proof {
            use_type_invariant(self);
        }
        let mut entries: Vec<Entry<V>> = Vec::new();
        let mut i: usize = 0;
        while i < self.entries.len()
            invariant
                i <= self.entries.len(),
                entries@ == self.entries@.subrange(0, i as int),
            decreases self.entries.len() - i,
        {
            entries.push(Entry { key: self.entries[i].key, value: self.entries[i].value });
            proof {
                assert(entries@ =~= self.entries@.subrange(0, i + 1));
            }
            i = i + 1;
        }
        proof {
            assert(entries@ =~= self.entries@);
        }
        AddressMap { entries }
    }
}

} // verus!
