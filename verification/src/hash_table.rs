//! A table that keeps each value in the slot that its key hashes to.
//!
//! The table is a row of slots. A key is turned into a slot number by the
//! standard library's default hasher; keys that share a slot share a value,
//! the one stored last.

use std::collections::hash_map::DefaultHasher;
use std::hash::Hash;
use std::hash::Hasher;
use std::marker::PhantomData;
use vstd::prelude::*;
use vstd::std_specs::hash::DefaultHasherAdditionalSpecFns;

verus! {

/// The divisor that brings a 64-bit hash down to a slot number.
pub const HASH_DIVISOR: u64 = 10000000000000;

/// The largest slot number that a key can hash to.
pub const MAX_SLOT: usize = 1844674;

/// The slots after `value` was stored in slot `slot`: the row is first
/// extended with empty slots as far as `slot`, where it was shorter.
pub open spec fn stored<V>(slots: Seq<Option<V>>, slot: int, value: V) -> Seq<Option<V>> {
    if slot < slots.len() {
        slots.update(slot, Some(value))
    } else {
        (slots + Seq::new((slot - slots.len()) as nat, |i: int| None::<V>)).push(Some(value))
    }
}

/// The value kept in slot `slot`, if the row reaches that far and the slot
/// is not empty.
pub open spec fn lookup<V>(slots: Seq<Option<V>>, slot: int) -> Option<V> {
    if 0 <= slot < slots.len() {
        slots[slot]
    } else {
        None
    }
}

/// The slots after slot `slot` was emptied; a row that does not reach as far
/// as `slot` stays as it is.
pub open spec fn cleared<V>(slots: Seq<Option<V>>, slot: int) -> Seq<Option<V>> {
    if 0 <= slot < slots.len() {
        slots.update(slot, None)
    } else {
        slots
    }
}

/// Feeds `key` to `state` by `Hash::hash`. What the key writes is up to its
/// `Hash` implementation, so nothing is claimed of the state afterwards.
#[verifier::external_body]
fn feed<K: Hash>(key: &K, state: &mut DefaultHasher) {
    key.hash(state);
}

/// A hash table. Its view is the row of its slots.
pub struct HashTable<K, V> {
    elements: Vec<Option<V>>,
    key_type: PhantomData<K>,
}

impl<K, V> View for HashTable<K, V> {
    type V = Seq<Option<V>>;

    closed spec fn view(&self) -> Seq<Option<V>> {
        self.elements@
    }
}

impl<K: Hash, V: Clone> HashTable<K, V> {
    /// A table without slots.
    pub fn new() -> (table: HashTable<K, V>)
        ensures
            table@ == Seq::<Option<V>>::empty(),
    {
        HashTable { elements: Vec::<Option<V>>::new(), key_type: PhantomData }
    }

    /// The slot that `k` belongs to: what the default hasher makes of the
    /// bytes that the key writes to it, divided by [`HASH_DIVISOR`] so that
    /// the row of slots stays short.
    pub fn hash(k: &K) -> (slot: usize)
        ensures
            slot <= MAX_SLOT,
            exists|written: Seq<Seq<u8>>|
                slot == #[trigger] DefaultHasher::spec_finish(written) / HASH_DIVISOR,
    {
        let mut s = DefaultHasher::new();
        feed(k, &mut s);
        (s.finish() / HASH_DIVISOR) as usize
    }

    /// Stores `value` in slot `slot`, in place of what the slot held.
    pub fn set_at(&mut self, slot: usize, value: V)
        requires
            slot < usize::MAX,
        ensures
            final(self)@ == stored(old(self)@, slot as int, value),
    {
        if self.elements.len() <= slot {
            self.elements.resize(slot + 1, None);
        }
        self.elements[slot] = Some(value);
    }

    /// The value in slot `slot`; `None` where the slot is empty or the row
    /// does not reach that far.
    pub fn get_at(&self, slot: usize) -> (value: Option<&V>)
        ensures
            match value {
                Some(value) => lookup(self@, slot as int) == Some(*value),
                None => lookup(self@, slot as int) is None,
            },
    {
        if slot < self.elements.len() {
            self.elements[slot].as_ref()
        } else {
            None
        }
    }

    /// Empties slot `slot`.
    pub fn remove_at(&mut self, slot: usize)
        ensures
            final(self)@ == cleared(old(self)@, slot as int),
    {
        if slot < self.elements.len() {
            self.elements[slot] = None;
        }
    }

    /// Stores `value` under `key`: in the slot that the key hashes to.
    pub fn set(&mut self, key: K, value: V)
        ensures
            exists|slot: int| 0 <= slot <= MAX_SLOT && final(self)@ == #[trigger] stored(old(self)@, slot, value),
    {
        let slot = HashTable::<K, V>::hash(&key);
        self.set_at(slot, value);
    }

    /// The value stored under `key`: what the slot that the key hashes to
    /// holds.
    pub fn get(&self, key: K) -> (value: Option<&V>)
        ensures
            exists|slot: int|
                0 <= slot <= MAX_SLOT && #[trigger] lookup(self@, slot) == match value {
                    Some(value) => Some(*value),
                    None => None,
                },
    {
        let slot = HashTable::<K, V>::hash(&key);
        self.get_at(slot)
    }

    /// Forgets the value stored under `key`: empties the slot that the key
    /// hashes to.
    pub fn remove(&mut self, key: K)
        ensures
            exists|slot: int| 0 <= slot <= MAX_SLOT && final(self)@ == #[trigger] cleared(old(self)@, slot),
    {
        let slot = HashTable::<K, V>::hash(&key);
        self.remove_at(slot);
    }
}

} // verus!
