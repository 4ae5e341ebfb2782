//! Facts about the probe: where it ends, described by the slots on its way,
//! and what a change to one slot does to it.

use crate::model::{
    ends_probe, first_end, found_index, holds, home_index, next_index, probe_end, probe_index,
    vacant_index, Slot,
};
use vstd::arithmetic::div_mod::{
    lemma_add_mod_noop_right, lemma_fundamental_div_mod, lemma_fundamental_div_mod_converse,
    lemma_mod_bound, lemma_small_mod,
};
use vstd::prelude::*;

verus! {

/// Every index that a probe reaches lies inside the table.
pub proof fn probe_index_in_range(start: int, steps: nat, capacity: nat)
    requires
        capacity > 0,
    ensures
        0 <= probe_index(start, steps, capacity) < capacity,
{
    lemma_mod_bound(start + steps, capacity as int);
}

/// One step further in the probe is the next index.
pub proof fn probe_index_step(start: int, steps: nat, capacity: nat)
    requires
        capacity > 0,
        0 <= start,
    ensures
        0 <= probe_index(start, steps, capacity) < capacity,
        probe_index(start, steps + 1, capacity) == next_index(
            probe_index(start, steps, capacity),
            capacity,
        ),
{
    let a = start + steps;
    let d = capacity as int;
    lemma_fundamental_div_mod(a, d);
    if a % d + 1 < d {
        assert(a + 1 == (a / d) * d + (a % d + 1)) by (nonlinear_arith)
            requires
                a == d * (a / d) + a % d,
        ;
        lemma_fundamental_div_mod_converse(a + 1, d, a / d, a % d + 1);
    } else {
        assert(a + 1 == (a / d + 1) * d + 0) by (nonlinear_arith)
            requires
                a == d * (a / d) + a % d,
                a % d + 1 == d,
        ;
        lemma_fundamental_div_mod_converse(a + 1, d, a / d + 1, 0);
    }
}

/// A probe that starts inside the table starts at its first slot.
pub proof fn probe_index_start(start: int, capacity: nat)
    requires
        0 <= start < capacity,
    ensures
        probe_index(start, 0, capacity) == start,
{
    lemma_small_mod(start as nat, capacity);
}

/// A probe reaches every slot: slot `index` lies fewer steps from `start`
/// than the table has slots.
pub proof fn probe_reaches(start: int, index: int, capacity: nat) -> (steps: nat)
    requires
        0 <= index < capacity,
    ensures
        steps < capacity,
        probe_index(start, steps, capacity) == index,
{
    let n = capacity as int;
    lemma_mod_bound(index - start, n);
    let steps = ((index - start) % n) as nat;
    lemma_add_mod_noop_right(start, index - start, n);
    lemma_small_mod(index as nat, capacity);
    steps
}

/// Where a probe ends, it has passed only occupied slots with other keys,
/// and it ends at a slot that is empty or holds the key. The result is the
/// number of steps to that slot.
pub proof fn first_end_reached<T>(slots: Seq<Slot<T>>, key: Seq<char>, start: int, steps: nat) -> (distance:
    nat)
    requires
        first_end(slots, key, start, steps) is Some,
    ensures
        steps <= distance < slots.len(),
        first_end(slots, key, start, steps) == Some(probe_index(start, distance, slots.len())),
        0 <= probe_index(start, distance, slots.len()) < slots.len(),
        ends_probe(slots[probe_index(start, distance, slots.len())], key),
        forall|k: nat|
            steps <= k < distance ==> !ends_probe(
                slots[#[trigger] probe_index(start, k, slots.len())],
                key,
            ),
    decreases slots.len() - steps,
{
    probe_index_in_range(start, steps, slots.len());
    if ends_probe(slots[probe_index(start, steps, slots.len())], key) {
        steps
    } else {
        first_end_reached(slots, key, start, steps + 1)
    }
}

/// A probe that does not end has found every slot on its way occupied by
/// another key.
pub proof fn first_end_missed<T>(slots: Seq<Slot<T>>, key: Seq<char>, start: int, steps: nat)
    requires
        first_end(slots, key, start, steps) is None,
    ensures
        forall|k: nat|
            steps <= k < slots.len() ==> !ends_probe(
                slots[#[trigger] probe_index(start, k, slots.len())],
                key,
            ),
    decreases slots.len() - steps,
{
    if steps < slots.len() {
        first_end_missed(slots, key, start, steps + 1);
    }
}

/// A probe ends at the first slot on its way that is empty or holds the key.
pub proof fn first_end_is<T>(
    slots: Seq<Slot<T>>,
    key: Seq<char>,
    start: int,
    steps: nat,
    distance: nat,
)
    requires
        steps <= distance < slots.len(),
        ends_probe(slots[probe_index(start, distance, slots.len())], key),
        forall|k: nat|
            steps <= k < distance ==> !ends_probe(
                slots[#[trigger] probe_index(start, k, slots.len())],
                key,
            ),
    ensures
        first_end(slots, key, start, steps) == Some(probe_index(start, distance, slots.len())),
    decreases distance - steps,
{
    if steps < distance {
        assert(!ends_probe(slots[probe_index(start, steps, slots.len())], key));
        first_end_is(slots, key, start, steps + 1, distance);
    }
}

/// A change to the table keeps the end of a probe where it was, if no slot
/// that the probe would pass begins to end it, and the slot at which it
/// ended still ends it.
pub proof fn first_end_kept<T>(
    before: Seq<Slot<T>>,
    after: Seq<Slot<T>>,
    key: Seq<char>,
    start: int,
)
    requires
        before.len() == after.len(),
        first_end(before, key, start, 0) is Some,
        forall|i: int|
            0 <= i < before.len() && !ends_probe(before[i], key) ==> !ends_probe(
                #[trigger] after[i],
                key,
            ),
        ends_probe(after[first_end(before, key, start, 0)->0], key),
    ensures
        first_end(after, key, start, 0) == first_end(before, key, start, 0),
{
    let distance = first_end_reached(before, key, start, 0);
    assert forall|k: nat| 0 <= k < distance implies !ends_probe(
        after[#[trigger] probe_index(start, k, after.len())],
        key,
    ) by {
        probe_index_in_range(start, k, before.len());
    }
    first_end_is(after, key, start, 0, distance);
}

/// The slot in which a key is found holds that key.
pub proof fn found_index_holds<T>(slots: Seq<Slot<T>>, key: Seq<char>)
    requires
        found_index(slots, key) is Some,
    ensures
        0 <= found_index(slots, key)->0 < slots.len(),
        holds(slots[found_index(slots, key)->0], key),
{
    let _ = first_end_reached(slots, key, home_index(key, slots.len()), 0);
}

/// The slot that an insertion would fill is empty.
pub proof fn vacant_index_is_empty<T>(slots: Seq<Slot<T>>, key: Seq<char>)
    requires
        vacant_index(slots, key) is Some,
    ensures
        0 <= vacant_index(slots, key)->0 < slots.len(),
        slots[vacant_index(slots, key)->0] is None,
{
    let _ = first_end_reached(slots, key, home_index(key, slots.len()), 0);
}

/// A probe ends somewhere as soon as one slot is empty or holds the key.
pub proof fn probe_ends_where_it_can<T>(slots: Seq<Slot<T>>, key: Seq<char>, index: int)
    requires
        0 <= index < slots.len(),
        ends_probe(slots[index], key),
    ensures
        probe_end(slots, key) is Some,
{
    let start = home_index(key, slots.len());
    if first_end(slots, key, start, 0) is None {
        first_end_missed(slots, key, start, 0);
        let steps = probe_reaches(start, index, slots.len());
        assert(!ends_probe(slots[probe_index(start, steps, slots.len())], key));
    }
}

} // verus!
