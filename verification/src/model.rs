//! The table as mathematics: a sequence of slots, and what probing, lookup,
//! insertion and removal mean on it.
//!
//! An empty slot is `None`; an occupied one holds a key and a value. Every
//! contract of the table is stated over these functions.

use crate::hashing::hash_index;
use vstd::prelude::*;
use vstd::utf8::encode_utf8;

verus! {

/// What an occupied slot holds: the characters of a key, and its value.
pub struct Stored<T> {
    pub key: Seq<char>,
    pub value: T,
}

/// What one slot of the buffer holds.
pub type Slot<T> = Option<Stored<T>>;

/// The slot at which the probe for `key` starts in a table of `capacity`
/// slots: the hash of the key's UTF-8 bytes.
pub open spec fn home_index(key: Seq<char>, capacity: nat) -> int
    recommends
        capacity > 0,
{
    hash_index(encode_utf8(key), capacity)
}

/// The index that follows `index`: one further, and back to 0 past the end.
pub open spec fn next_index(index: int, capacity: nat) -> int {
    if index + 1 >= capacity {
        0
    } else {
        index + 1
    }
}

/// The slot that a probe starting at `start` reaches after `steps` steps.
pub open spec fn probe_index(start: int, steps: nat, capacity: nat) -> int
    recommends
        capacity > 0,
{
    (start + steps) % (capacity as int)
}

/// The slot is occupied and its key is `key`.
pub open spec fn holds<T>(slot: Slot<T>, key: Seq<char>) -> bool {
    slot is Some && slot->0.key == key
}

/// A probe for `key` ends at this slot: it is empty, or it holds `key`.
pub open spec fn ends_probe<T>(slot: Slot<T>, key: Seq<char>) -> bool {
    slot is None || slot->0.key == key
}

/// The first slot at which a probe for `key` ends, among those that lie
/// `steps` or more steps from `start`. The probe visits each slot at most
/// once: after as many steps as there are slots it gives up.
pub open spec fn first_end<T>(slots: Seq<Slot<T>>, key: Seq<char>, start: int, steps: nat) -> Option<
    int,
>
    decreases slots.len() - steps,
{
    if steps >= slots.len() {
        None
    } else if ends_probe(slots[probe_index(start, steps, slots.len())], key) {
        Some(probe_index(start, steps, slots.len()))
    } else {
        first_end(slots, key, start, steps + 1)
    }
}

/// Where the probe for `key` ends: the first slot from the key's home slot
/// on that is empty or holds `key`. `None` where every slot is occupied by
/// another key, and in a table without slots.
pub open spec fn probe_end<T>(slots: Seq<Slot<T>>, key: Seq<char>) -> Option<int> {
    if slots.len() == 0 {
        None
    } else {
        first_end(slots, key, home_index(key, slots.len()), 0)
    }
}

/// The slot in which a lookup finds `key`: where the probe ends, if the
/// slot there is occupied.
pub open spec fn found_index<T>(slots: Seq<Slot<T>>, key: Seq<char>) -> Option<int> {
    match probe_end(slots, key) {
        Some(i) => if slots[i] is Some {
            Some(i)
        } else {
            None
        },
        None => None,
    }
}

/// The slot that an insertion of `key` fills: where the probe ends, if the
/// slot there is empty.
pub open spec fn vacant_index<T>(slots: Seq<Slot<T>>, key: Seq<char>) -> Option<int> {
    match probe_end(slots, key) {
        Some(i) => if slots[i] is None {
            Some(i)
        } else {
            None
        },
        None => None,
    }
}

/// The value that a lookup of `key` gives.
pub open spec fn lookup<T>(slots: Seq<Slot<T>>, key: Seq<char>) -> Option<T> {
    match found_index(slots, key) {
        Some(i) => Some(slots[i]->0.value),
        None => None,
    }
}

/// The slots after an insertion of `key` with `value`: the vacant slot of
/// the probe is filled; without one nothing changes.
pub open spec fn with_inserted<T>(slots: Seq<Slot<T>>, key: Seq<char>, value: T) -> Seq<Slot<T>> {
    match vacant_index(slots, key) {
        Some(i) => slots.update(i, Some(Stored { key, value })),
        None => slots,
    }
}

/// The slots after a removal of `key`: the slot in which a lookup finds the
/// key is emptied; where it finds none nothing changes.
pub open spec fn with_removed<T>(slots: Seq<Slot<T>>, key: Seq<char>) -> Seq<Slot<T>> {
    match found_index(slots, key) {
        Some(i) => slots.update(i, None),
        None => slots,
    }
}

/// A table of `capacity` slots, all empty.
pub open spec fn empty_slots<T>(capacity: nat) -> Seq<Slot<T>> {
    Seq::new(capacity, |i: int| None)
}

/// Some slot holds `key`, whether or not a lookup finds it there.
pub open spec fn stores<T>(slots: Seq<Slot<T>>, key: Seq<char>) -> bool {
    exists|i: int| 0 <= i < slots.len() && holds(#[trigger] slots[i], key)
}

/// The number of occupied slots.
pub open spec fn occupied<T>(slots: Seq<Slot<T>>) -> nat
    decreases slots.len(),
{
    if slots.len() == 0 {
        0
    } else {
        occupied(slots.drop_last()) + if slots.last() is Some {
            1nat
        } else {
            0nat
        }
    }
}

/// No two occupied slots hold the same key.
pub open spec fn unique_keys<T>(slots: Seq<Slot<T>>) -> bool {
    forall|i: int, j: int|
        0 <= i < slots.len() && 0 <= j < slots.len() && (#[trigger] slots[i]) is Some && holds(
            #[trigger] slots[j],
            slots[i]->0.key,
        ) ==> i == j
}

/// Every stored key is found in the slot that stores it: from the key's
/// home slot to its own slot the probe meets only occupied slots, none of
/// which holds the same key.
pub open spec fn chains_intact<T>(slots: Seq<Slot<T>>) -> bool {
    forall|i: int|
        0 <= i < slots.len() && (#[trigger] slots[i]) is Some ==> found_index(
            slots,
            slots[i]->0.key,
        ) == Some(i)
}

/// The slots after the insertions of `items`, made one after the other.
pub open spec fn with_all_inserted<T>(slots: Seq<Slot<T>>, items: Seq<Stored<T>>) -> Seq<Slot<T>>
    decreases items.len(),
{
    if items.len() == 0 {
        slots
    } else {
        with_inserted(
            with_all_inserted(slots, items.drop_last()),
            items.last().key,
            items.last().value,
        )
    }
}

/// How many of the insertions of `items`, made one after the other, find
/// no vacant slot and leave the table as it was.
pub open spec fn dropped<T>(slots: Seq<Slot<T>>, items: Seq<Stored<T>>) -> nat
    decreases items.len(),
{
    if items.len() == 0 {
        0
    } else {
        dropped(slots, items.drop_last()) + if vacant_index(
            with_all_inserted(slots, items.drop_last()),
            items.last().key,
        ) is None {
            1nat
        } else {
            0nat
        }
    }
}

/// The table read as a map: each key that a lookup finds, with the value
/// that the lookup gives.
pub open spec fn contents<T>(slots: Seq<Slot<T>>) -> Map<Seq<char>, T> {
    Map::new(|key: Seq<char>| lookup(slots, key) is Some, |key: Seq<char>| lookup(slots, key)->0)
}

} // verus!
