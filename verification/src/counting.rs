//! Facts about the number of occupied slots.

use crate::model::{empty_slots, occupied, Slot};
use vstd::prelude::*;

verus! {

/// One unit for an occupied slot, none for an empty one.
pub open spec fn unit<T>(slot: Slot<T>) -> int {
    if slot is Some {
        1
    } else {
        0
    }
}

/// No more slots are occupied than there are.
pub proof fn occupied_at_most_all<T>(slots: Seq<Slot<T>>)
    ensures
        occupied(slots) <= slots.len(),
    decreases slots.len(),
{
    if slots.len() > 0 {
        occupied_at_most_all(slots.drop_last());
    }
}

/// A table made empty has no occupied slot.
pub proof fn occupied_of_empty<T>(capacity: nat)
    ensures
        occupied(empty_slots::<T>(capacity)) == 0,
    decreases capacity,
{
    if capacity > 0 {
        assert(empty_slots::<T>(capacity).drop_last() =~= empty_slots::<T>(
            (capacity - 1) as nat,
        ));
        occupied_of_empty::<T>((capacity - 1) as nat);
    }
}

/// Changing one slot changes the count by what that slot gains or loses.
pub proof fn occupied_after_update<T>(slots: Seq<Slot<T>>, index: int, slot: Slot<T>)
    requires
        0 <= index < slots.len(),
    ensures
        occupied(slots.update(index, slot)) == occupied(slots) - unit(slots[index]) + unit(slot),
    decreases slots.len(),
{
    let changed = slots.update(index, slot);
    if index == slots.len() - 1 {
        assert(changed.drop_last() =~= slots.drop_last());
    } else {
        assert(changed.drop_last() =~= slots.drop_last().update(index, slot));
        occupied_after_update(slots.drop_last(), index, slot);
    }
}

/// While fewer slots are occupied than there are, one of them is empty.
pub proof fn room_left<T>(slots: Seq<Slot<T>>) -> (index: int)
    requires
        occupied(slots) < slots.len(),
    ensures
        0 <= index < slots.len(),
        slots[index] is None,
    decreases slots.len(),
{
    if slots.last() is None {
        slots.len() - 1
    } else {
        room_left(slots.drop_last())
    }
}

} // verus!
