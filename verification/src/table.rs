//! The table: a buffer of slots, filled and searched by linear probing.

use crate::entry::HashMapEntry;
use crate::hashing::hash_bytes;
use crate::model::{
    empty_slots, first_end, found_index, holds, home_index, lookup, probe_index, vacant_index,
    with_inserted, with_removed, Slot, Stored,
};
use crate::probing::{probe_index_start, probe_index_step};
use crate::text::same_text;
use vstd::prelude::*;

verus! {

/// A map from text keys to values in a buffer of fixed length. Collisions
/// are resolved by linear probing. The buffer never grows: an insertion
/// that finds no room is dropped.
///
/// A removal empties its slot and moves nothing. A key that was stored
/// behind that slot, because the slot was occupied when the key came, is
/// then hidden from lookups until the slot is filled again; see
/// [`crate::laws::removal_hides_or_keeps`].
#[derive(Debug)]
pub struct HashMap<T: Clone> {
    buffer: Vec<Option<HashMapEntry<T>>>,
}

/// What a slot of the buffer stands for in the table's view.
spec fn slot_view<T: Clone>(slot: Option<HashMapEntry<T>>) -> Slot<T> {
    match slot {
        Some(entry) => Some(Stored { key: entry.key_view(), value: entry.value_view()->0 }),
        None => None,
    }
}

/// Puts `slot` at place `i` of `buffer` and hands out what stood there.
fn replace_slot<T: Clone>(
    buffer: &mut Vec<Option<HashMapEntry<T>>>,
    i: usize,
    slot: Option<HashMapEntry<T>>,
) -> (previous: Option<HashMapEntry<T>>)
    requires
        i < old(buffer)@.len(),
    ensures
        previous == old(buffer)@[i as int],
        final(buffer)@ == old(buffer)@.update(i as int, slot),
    no_unwind
{
    let mut slot = slot;
    core::mem::swap(&mut buffer[i], &mut slot);
    slot
}

impl<T: Clone> View for HashMap<T> {
    type V = Seq<Slot<T>>;

    /// The slots of the buffer, in order.
    closed spec fn view(&self) -> Seq<Slot<T>> {
        Seq::new(self.buffer@.len(), |i: int| slot_view(self.buffer@[i]))
    }
}

impl<T: Clone> HashMap<T> {
    /// Every entry in the buffer still has its value: a value leaves the
    /// table only together with its entry.
    #[verifier::type_invariant]
    spec fn entries_hold_values(&self) -> bool {
        forall|i: int|
            0 <= i < self.buffer@.len() ==> ((#[trigger] self.buffer@[i]) matches Some(entry)
                ==> entry.value_view() is Some)
    }

    /// A table of `buffer_length` slots, all empty. The length never changes
    /// afterwards. A table without slots is allowed: it stores nothing.
    pub fn new(buffer_length: usize) -> (map: HashMap<T>)
        ensures
            map@ == empty_slots::<T>(buffer_length as nat),
    {
        let mut buffer: Vec<Option<HashMapEntry<T>>> = Vec::with_capacity(buffer_length);
        let mut filled: usize = 0;
        while filled < buffer_length
            invariant
                filled <= buffer_length,
                buffer@.len() == filled,
                forall|j: int| 0 <= j < filled ==> buffer@[j] is None,
            decreases buffer_length - filled,
        {
            buffer.push(None);
            filled += 1;
        }
        let map = HashMap { buffer };
        proof {
            assert(map@ =~= empty_slots::<T>(buffer_length as nat));
        }
        map
    }

    /// The number of slots.
    pub fn buffer_capacity(&self) -> (capacity: usize)
        ensures
            capacity == self@.len(),
    {
        self.buffer.len()
    }

    /// The home slot of the key `s`: the hash of its bytes, reduced to the
    /// table's capacity. A table without slots has no home slot to give.
    pub fn create_hash(&self, s: &str) -> (index: usize)
        requires
            self@.len() > 0,
        ensures
            index == home_index(s@, self@.len()),
            index < self@.len(),
    {
        hash_bytes(s.as_bytes(), self.buffer_capacity())
    }

    /// Brings an index that may have stepped past the end back into the
    /// table: an index at or beyond the capacity becomes 0.
    pub fn valid_next_index(&self, i: usize) -> (index: usize)
        ensures
            index == if i >= self@.len() {
                0
            } else {
                i
            },
    {
        if i >= self.buffer_capacity() {
            0
        } else {
            i
        }
    }

    /// Whether slot `i` is occupied by an entry whose key is `key`.
    fn is_same_key(&self, i: usize, key: &str) -> (same: bool)
        requires
            i < self@.len(),
        ensures
            same == holds(self@[i as int], key@),
    {
        match &self.buffer[i] {
            Some(entry) => same_text(entry.get_key(), key),
            None => false,
        }
    }

    /// The slot that an insertion of `key` would fill: the first empty slot
    /// from the key's home slot on, unless the key is met before it. `None`
    /// where the key is already stored on the way, where every slot is
    /// occupied, and in a table without slots.
    pub fn find_nearest_empty_slot(&self, key: &str) -> (slot: Option<usize>)
        ensures
            match slot {
                Some(i) => i < self@.len() && vacant_index(self@, key@) == Some(i as int),
                None => vacant_index(self@, key@) is None,
            },
    {
        let capacity = self.buffer_capacity();
        if capacity == 0 {
            return None;
        }
        let home = self.create_hash(key);
        let mut current_index = home;
        let mut iteration_count: usize = 0;
        proof {
            probe_index_start(home as int, capacity as nat);
        }
        while iteration_count < capacity
            invariant
                capacity == self@.len(),
                home == home_index(key@, self@.len()),
                iteration_count <= capacity,
                current_index < capacity,
                current_index == probe_index(home as int, iteration_count as nat, capacity as nat),
                first_end(self@, key@, home as int, 0) == first_end(
                    self@,
                    key@,
                    home as int,
                    iteration_count as nat,
                ),
            decreases capacity - iteration_count,
        {
            assert(self@[current_index as int] == slot_view(self.buffer@[current_index as int]));
            if self.buffer[current_index].is_none() {
                return Some(current_index);
            }
            if self.is_same_key(current_index, key) {
                return None;
            }
            proof {
                probe_index_step(home as int, iteration_count as nat, capacity as nat);
            }
            current_index = self.valid_next_index(current_index + 1);
            iteration_count += 1;
        }
        None
    }

    /// Stores `value` under `key` in the first empty slot from the key's
    /// home slot on. Nothing changes, and nothing tells the caller so, where
    /// the key is met before an empty slot or no slot is empty.
    pub fn insert(&mut self, key: &str, value: T)
        ensures
            final(self)@ == with_inserted(old(self)@, key@, value),
            final(self)@.len() == old(self)@.len(),
    {
        proof {
            use_type_invariant(&*self);
        }
        match self.find_nearest_empty_slot(key) {
            Some(i) => {
                let entry = HashMapEntry::new(key.to_owned(), value);
                let _ = replace_slot(&mut self.buffer, i, Some(entry));
                proof {
                    assert(self@ =~= with_inserted(old(self)@, key@, value));
                }
            },
            None => {},
        }
    }

    /// The slot in which `key` is stored, as a lookup sees it: the probe
    /// from the key's home slot on gives up at the first empty slot and once
    /// it has visited every slot.
    pub fn find_index_by_key(&self, key: &str) -> (slot: Option<usize>)
        ensures
            match slot {
                Some(i) => i < self@.len() && found_index(self@, key@) == Some(i as int),
                None => found_index(self@, key@) is None,
            },
    {
        let capacity = self.buffer_capacity();
        if capacity == 0 {
            return None;
        }
        let home = self.create_hash(key);
        let mut current_index = home;
        let mut iteration_count: usize = 0;
        proof {
            probe_index_start(home as int, capacity as nat);
        }
        while iteration_count < capacity
            invariant
                capacity == self@.len(),
                home == home_index(key@, self@.len()),
                iteration_count <= capacity,
                current_index < capacity,
                current_index == probe_index(home as int, iteration_count as nat, capacity as nat),
                first_end(self@, key@, home as int, 0) == first_end(
                    self@,
                    key@,
                    home as int,
                    iteration_count as nat,
                ),
            decreases capacity - iteration_count,
        {
            assert(self@[current_index as int] == slot_view(self.buffer@[current_index as int]));
            if self.buffer[current_index].is_none() {
                return None;
            }
            if self.is_same_key(current_index, key) {
                return Some(current_index);
            }
            proof {
                probe_index_step(home as int, iteration_count as nat, capacity as nat);
            }
            current_index = self.valid_next_index(current_index + 1);
            iteration_count += 1;
        }
        None
    }

    /// The value stored under `key`, if a lookup finds the key: the probe
    /// from the key's home slot on must meet the key before it meets an
    /// empty slot.
    pub fn get(&self, key: &str) -> (value: &Option<T>)
        ensures
            *value == lookup(self@, key@),
    {
        proof {
            use_type_invariant(self);
        }
        match self.find_index_by_key(key) {
            Some(i) => match &self.buffer[i] {
                Some(entry) => entry.get_value(),
                None => &None,
            },
            None => &None,
        }
    }

    /// Takes the value stored under `key` out of the table and empties its
    /// slot; no other slot changes. Where a lookup does not find the key
    /// nothing changes at all.
    pub fn remove(&mut self, key: &str) -> (value: Option<T>)
        ensures
            value == lookup(old(self)@, key@),
            final(self)@ == with_removed(old(self)@, key@),
            final(self)@.len() == old(self)@.len(),
    {
        proof {
            use_type_invariant(&*self);
        }
        match self.find_index_by_key(key) {
            Some(i) => {
                let entry = replace_slot(&mut self.buffer, i, None);
                proof {
                    assert(self@ =~= with_removed(old(self)@, key@));
                }
                match entry {
                    Some(mut taken) => taken.remove_value(),
                    None => None,
                }
            },
            None => None,
        }
    }
}

impl<T: Clone> Clone for HashMap<T> {
    /// A table of the same capacity whose slots hold the same keys at the
    /// same places, each with a clone of its value.
    fn clone(&self) -> (copy: Self)
        ensures
            copy@.len() == self@.len(),
            forall|i: int|
                0 <= i < self@.len() ==> match #[trigger] self@[i] {
                    Some(stored) => copy@[i] is Some && copy@[i]->0.key == stored.key && cloned::<
                        T,
                    >(stored.value, copy@[i]->0.value),
                    None => copy@[i] is None,
                },
    {
        proof {
            use_type_invariant(self);
        }
        let buffer = self.buffer.clone();
        HashMap { buffer }
    }
}

impl<T: Clone> Default for HashMap<T> {
    /// A table of 100 slots, all empty.
    fn default() -> (map: Self)
        ensures
            map@ == empty_slots::<T>(100),
    {
        HashMap::<T>::new(100)
    }
}

} // verus!
