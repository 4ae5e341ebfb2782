//! What holds of the table's operations, whatever the table holds.
//!
//! Each law is stated over the table's view and the functions of the model,
//! which are what the contracts of `insert`, `get` and `remove` speak of.

use crate::counting::{occupied_after_update, occupied_at_most_all, occupied_of_empty, room_left};
use crate::model::{
    chains_intact, contents, dropped, empty_slots, ends_probe, found_index, holds, home_index,
    lookup, occupied, probe_index, stores, unique_keys, vacant_index, with_all_inserted,
    with_inserted, with_removed, Slot, Stored,
};
use crate::probing::{
    first_end_is, first_end_kept, first_end_reached, found_index_holds, probe_ends_where_it_can,
    probe_index_in_range, vacant_index_is_empty,
};
use vstd::prelude::*;

verus! {

/// Neither an insertion nor a removal changes the number of slots.
pub proof fn capacity_is_fixed<T>(slots: Seq<Slot<T>>, key: Seq<char>, value: T)
    ensures
        with_inserted(slots, key, value).len() == slots.len(),
        with_removed(slots, key).len() == slots.len(),
{
    if vacant_index(slots, key) is Some {
        vacant_index_is_empty(slots, key);
    }
    if found_index(slots, key) is Some {
        found_index_holds(slots, key);
    }
}

/// After an insertion a lookup of the key gives the inserted value, if the
/// insertion found a vacant slot, or if the key was found before with that
/// very value. In every other case the insertion is dropped, and the lookup
/// gives what it gave before.
pub proof fn round_trip<T>(slots: Seq<Slot<T>>, key: Seq<char>, value: T)
    ensures
        lookup(with_inserted(slots, key, value), key) == Some(value) <==> vacant_index(slots, key)
            is Some || lookup(slots, key) == Some(value),
        vacant_index(slots, key) is Some ==> found_index(with_inserted(slots, key, value), key)
            == vacant_index(slots, key),
        vacant_index(slots, key) is None ==> with_inserted(slots, key, value) == slots,
{
    if vacant_index(slots, key) is Some {
        vacant_index_is_empty(slots, key);
        let after = with_inserted(slots, key, value);
        first_end_kept(slots, after, key, home_index(key, slots.len()));
    }
}

/// An insertion finds a vacant slot whenever the key is stored nowhere and
/// some slot is empty, so a lookup of the key then gives the inserted value.
pub proof fn round_trip_with_room<T>(slots: Seq<Slot<T>>, key: Seq<char>, value: T)
    requires
        !stores(slots, key),
        occupied(slots) < slots.len(),
    ensures
        vacant_index(slots, key) is Some,
        lookup(with_inserted(slots, key, value), key) == Some(value),
{
    let empty = room_left(slots);
    probe_ends_where_it_can(slots, key, empty);
    let _ = first_end_reached(slots, key, home_index(key, slots.len()), 0);
    round_trip(slots, key, value);
}

/// In a table that was just made, with at least one slot, any key can be
/// inserted and is then looked up with its value.
pub proof fn round_trip_in_new_table<T>(capacity: nat, key: Seq<char>, value: T)
    requires
        capacity >= 1,
    ensures
        lookup(with_inserted(empty_slots::<T>(capacity), key, value), key) == Some(value),
{
    occupied_of_empty::<T>(capacity);
    round_trip_with_room(empty_slots::<T>(capacity), key, value);
}

/// An insertion under a key that a lookup already finds changes nothing.
pub proof fn duplicate_is_rejected<T>(slots: Seq<Slot<T>>, key: Seq<char>, value: T)
    requires
        lookup(slots, key) is Some,
    ensures
        with_inserted(slots, key, value) == slots,
{
}

/// Of two insertions under one key the second changes nothing: the table
/// stays as the first left it, and so does the value that a lookup gives.
/// That value is the first one wherever the first insertion found a vacant
/// slot, or the key was found before with that very value.
pub proof fn second_insertion_has_no_effect<T>(
    slots: Seq<Slot<T>>,
    key: Seq<char>,
    first: T,
    second: T,
)
    ensures
        with_inserted(with_inserted(slots, key, first), key, second) == with_inserted(
            slots,
            key,
            first,
        ),
        lookup(with_inserted(with_inserted(slots, key, first), key, second), key) == Some(first)
            <==> vacant_index(slots, key) is Some || lookup(slots, key) == Some(first),
{
    round_trip(slots, key, first);
}

/// After a removal a lookup of the removed key finds nothing.
pub proof fn removal_clears<T>(slots: Seq<Slot<T>>, key: Seq<char>)
    ensures
        lookup(with_removed(slots, key), key) is None,
{
    if found_index(slots, key) is Some {
        found_index_holds(slots, key);
        first_end_kept(slots, with_removed(slots, key), key, home_index(key, slots.len()));
    }
}

/// A removal that follows an insertion finds the inserted value, if the
/// insertion found a vacant slot or the key was found before with that very
/// value; a lookup after the removal finds nothing.
pub proof fn removal_after_insertion<T>(slots: Seq<Slot<T>>, key: Seq<char>, value: T)
    requires
        vacant_index(slots, key) is Some || lookup(slots, key) == Some(value),
    ensures
        lookup(with_inserted(slots, key, value), key) == Some(value),
        lookup(with_removed(with_inserted(slots, key, value), key), key) is None,
{
    round_trip(slots, key, value);
    removal_clears(with_inserted(slots, key, value), key);
}

/// A removal that follows an insertion into a vacant slot puts the table
/// back as it was before the insertion.
pub proof fn removal_undoes_insertion<T>(slots: Seq<Slot<T>>, key: Seq<char>, value: T)
    requires
        vacant_index(slots, key) is Some,
    ensures
        with_removed(with_inserted(slots, key, value), key) == slots,
{
    round_trip(slots, key, value);
    vacant_index_is_empty(slots, key);
    assert(with_removed(with_inserted(slots, key, value), key) =~= slots);
}

/// A key that no slot holds is not found, and its removal changes nothing.
pub proof fn absent_key<T>(slots: Seq<Slot<T>>, key: Seq<char>)
    requires
        !stores(slots, key),
    ensures
        lookup(slots, key) is None,
        with_removed(slots, key) == slots,
{
    if found_index(slots, key) is Some {
        found_index_holds(slots, key);
    }
}

/// A key is held by a slot only after an insertion under that key: a new
/// table holds no key, an insertion adds no key but its own, and a removal
/// adds none.
pub proof fn keys_come_from_insertions<T>(
    slots: Seq<Slot<T>>,
    key: Seq<char>,
    other: Seq<char>,
    value: T,
    capacity: nat,
)
    ensures
        !stores(empty_slots::<T>(capacity), key),
        stores(with_inserted(slots, other, value), key) ==> stores(slots, key) || key == other,
        stores(with_removed(slots, other), key) ==> stores(slots, key),
{
    capacity_is_fixed(slots, other, value);
    if vacant_index(slots, other) is Some {
        vacant_index_is_empty(slots, other);
    }
    if found_index(slots, other) is Some {
        found_index_holds(slots, other);
    }
    let inserted = with_inserted(slots, other, value);
    if stores(inserted, key) && key != other {
        let i = choose|i: int| 0 <= i < inserted.len() && holds(#[trigger] inserted[i], key);
        assert(holds(slots[i], key));
    }
    let removed = with_removed(slots, other);
    if stores(removed, key) {
        let i = choose|i: int| 0 <= i < removed.len() && holds(#[trigger] removed[i], key);
        assert(holds(slots[i], key));
    }
}

/// An insertion leaves every key that a lookup finds where it is, with the
/// value it has.
pub proof fn insertion_keeps_found_keys<T>(
    slots: Seq<Slot<T>>,
    key: Seq<char>,
    value: T,
    other: Seq<char>,
)
    requires
        other != key,
        found_index(slots, other) is Some,
    ensures
        found_index(with_inserted(slots, key, value), other) == found_index(slots, other),
        lookup(with_inserted(slots, key, value), other) == lookup(slots, other),
{
    found_index_holds(slots, other);
    if vacant_index(slots, key) is Some {
        vacant_index_is_empty(slots, key);
        first_end_kept(
            slots,
            with_inserted(slots, key, value),
            other,
            home_index(other, slots.len()),
        );
    }
}

/// A removal never changes the value that a lookup gives for another key,
/// but it may hide that key: where the emptied slot lies on the way from the
/// other key's home slot to its own, the lookup ends there and finds
/// nothing, though the key is still stored.
pub proof fn removal_hides_or_keeps<T>(slots: Seq<Slot<T>>, key: Seq<char>, other: Seq<char>)
    requires
        other != key,
    ensures
        lookup(with_removed(slots, key), other) is None || lookup(with_removed(slots, key), other)
            == lookup(slots, other),
{
    let after = with_removed(slots, key);
    if found_index(slots, key) is Some && found_index(after, other) is Some {
        found_index_holds(slots, key);
        found_index_holds(after, other);
        let emptied = found_index(slots, key)->0;
        let start = home_index(other, slots.len());
        let distance = first_end_reached(after, other, start, 0);
        assert forall|k: nat| 0 <= k < distance implies !ends_probe(
            slots[#[trigger] probe_index(start, k, slots.len())],
            other,
        ) by {
            probe_index_in_range(start, k, slots.len());
        }
        first_end_is(slots, other, start, 0, distance);
    }
}

/// The number of occupied slots never exceeds the capacity. An insertion
/// that finds a vacant slot raises it by one; any other leaves the table as
/// it was.
pub proof fn insertion_fills_one_slot<T>(slots: Seq<Slot<T>>, key: Seq<char>, value: T)
    ensures
        occupied(slots) <= slots.len(),
        vacant_index(slots, key) is Some ==> occupied(with_inserted(slots, key, value))
            == occupied(slots) + 1,
        vacant_index(slots, key) is None ==> with_inserted(slots, key, value) == slots,
{
    occupied_at_most_all(slots);
    if vacant_index(slots, key) is Some {
        vacant_index_is_empty(slots, key);
        occupied_after_update(
            slots,
            vacant_index(slots, key)->0,
            Some(Stored { key, value }),
        );
    }
}

/// A removal that finds its key frees one slot.
pub proof fn removal_frees_one_slot<T>(slots: Seq<Slot<T>>, key: Seq<char>)
    ensures
        found_index(slots, key) is Some ==> occupied(with_removed(slots, key)) + 1 == occupied(
            slots,
        ),
        found_index(slots, key) is None ==> with_removed(slots, key) == slots,
{
    if found_index(slots, key) is Some {
        found_index_holds(slots, key);
        occupied_after_update(slots, found_index(slots, key)->0, None);
    }
}

/// In a table whose slots are all occupied every insertion is dropped.
pub proof fn full_table_drops_insertions<T>(slots: Seq<Slot<T>>, key: Seq<char>, value: T)
    requires
        occupied(slots) == slots.len(),
    ensures
        with_inserted(slots, key, value) == slots,
{
    insertion_fills_one_slot(slots, key, value);
    if vacant_index(slots, key) is Some {
        capacity_is_fixed(slots, key, value);
        occupied_at_most_all(with_inserted(slots, key, value));
    }
}

/// Of a run of insertions, each one either fills a slot or is dropped, and
/// no more slots can be filled than the table has: a run that is longer than
/// the number of empty slots has at least one insertion dropped.
pub proof fn capacity_bounds_insertions<T>(slots: Seq<Slot<T>>, items: Seq<Stored<T>>)
    ensures
        with_all_inserted(slots, items).len() == slots.len(),
        occupied(with_all_inserted(slots, items)) + dropped(slots, items) == occupied(slots)
            + items.len(),
        occupied(with_all_inserted(slots, items)) <= slots.len(),
        items.len() > slots.len() - occupied(slots) ==> dropped(slots, items) >= 1,
    decreases items.len(),
{
    if items.len() > 0 {
        let earlier = items.drop_last();
        capacity_bounds_insertions(slots, earlier);
        let reached = with_all_inserted(slots, earlier);
        capacity_is_fixed(reached, items.last().key, items.last().value);
        insertion_fills_one_slot(reached, items.last().key, items.last().value);
    }
    occupied_at_most_all(with_all_inserted(slots, items));
}

/// Two different keys whose insertions both find a vacant slot are then
/// both looked up with their values, in two different slots. This holds in
/// particular of two keys with the same home slot.
pub proof fn two_keys_are_both_kept<T>(
    slots: Seq<Slot<T>>,
    first_key: Seq<char>,
    first_value: T,
    second_key: Seq<char>,
    second_value: T,
)
    requires
        first_key != second_key,
        vacant_index(slots, first_key) is Some,
        vacant_index(with_inserted(slots, first_key, first_value), second_key) is Some,
    ensures
        ({
            let both = with_inserted(
                with_inserted(slots, first_key, first_value),
                second_key,
                second_value,
            );
            &&& lookup(both, first_key) == Some(first_value)
            &&& lookup(both, second_key) == Some(second_value)
            &&& found_index(both, first_key) != found_index(both, second_key)
        }),
{
    let one = with_inserted(slots, first_key, first_value);
    let both = with_inserted(one, second_key, second_value);
    round_trip(slots, first_key, first_value);
    round_trip(one, second_key, second_value);
    insertion_keeps_found_keys(one, second_key, second_value, first_key);
    found_index_holds(both, first_key);
    found_index_holds(both, second_key);
}

/// Both insertions find a vacant slot where the table stores neither key
/// and has two empty slots, wherever the home slots of the two keys lie.
pub proof fn two_keys_fit_into_two_empty_slots<T>(
    slots: Seq<Slot<T>>,
    first_key: Seq<char>,
    first_value: T,
    second_key: Seq<char>,
    second_value: T,
)
    requires
        first_key != second_key,
        !stores(slots, first_key),
        !stores(slots, second_key),
        occupied(slots) + 2 <= slots.len(),
    ensures
        vacant_index(slots, first_key) is Some,
        vacant_index(with_inserted(slots, first_key, first_value), second_key) is Some,
        ({
            let both = with_inserted(
                with_inserted(slots, first_key, first_value),
                second_key,
                second_value,
            );
            &&& lookup(both, first_key) == Some(first_value)
            &&& lookup(both, second_key) == Some(second_value)
        }),
{
    let one = with_inserted(slots, first_key, first_value);
    round_trip_with_room(slots, first_key, first_value);
    insertion_fills_one_slot(slots, first_key, first_value);
    capacity_is_fixed(slots, first_key, first_value);
    keys_come_from_insertions(slots, second_key, first_key, first_value, 0);
    round_trip_with_room(one, second_key, second_value);
    two_keys_are_both_kept(slots, first_key, first_value, second_key, second_value);
}

/// A table that was just made holds no key twice and has every chain
/// intact, and read as a map it is empty.
pub proof fn new_table_is_intact<T>(capacity: nat)
    ensures
        unique_keys(empty_slots::<T>(capacity)),
        chains_intact(empty_slots::<T>(capacity)),
        contents(empty_slots::<T>(capacity)) == Map::<Seq<char>, T>::empty(),
{
    let slots = empty_slots::<T>(capacity);
    assert forall|key: Seq<char>| lookup(slots, key) is None by {
        if found_index(slots, key) is Some {
            found_index_holds(slots, key);
        }
    }
    assert(contents(slots) =~= Map::<Seq<char>, T>::empty());
}

/// Where every chain is intact, no key is stored twice.
pub proof fn intact_chains_have_unique_keys<T>(slots: Seq<Slot<T>>)
    requires
        chains_intact(slots),
    ensures
        unique_keys(slots),
{
}

/// Where every chain is intact, a lookup finds exactly the keys that the
/// table stores.
pub proof fn intact_chains_find_every_key<T>(slots: Seq<Slot<T>>, key: Seq<char>)
    requires
        chains_intact(slots),
    ensures
        lookup(slots, key) is Some <==> stores(slots, key),
{
    if found_index(slots, key) is Some {
        found_index_holds(slots, key);
    }
}

/// An insertion keeps every chain intact.
pub proof fn insertion_keeps_chains_intact<T>(slots: Seq<Slot<T>>, key: Seq<char>, value: T)
    requires
        chains_intact(slots),
    ensures
        chains_intact(with_inserted(slots, key, value)),
{
    let after = with_inserted(slots, key, value);
    if vacant_index(slots, key) is Some {
        vacant_index_is_empty(slots, key);
        round_trip(slots, key, value);
        assert forall|i: int| 0 <= i < after.len() && (#[trigger] after[i]) is Some implies found_index(
            after,
            after[i]->0.key,
        ) == Some(i) by {
            if i != vacant_index(slots, key)->0 {
                assert(slots[i] is Some);
                insertion_keeps_found_keys(slots, key, value, slots[i]->0.key);
            }
        }
    }
}

/// A removal stores no key twice that was not stored twice before. It may
/// break a chain all the same, and after that an insertion may store a key
/// a second time.
pub proof fn removal_keeps_keys_unique<T>(slots: Seq<Slot<T>>, key: Seq<char>)
    requires
        unique_keys(slots),
    ensures
        unique_keys(with_removed(slots, key)),
{
    let after = with_removed(slots, key);
    if found_index(slots, key) is Some {
        found_index_holds(slots, key);
        assert forall|i: int, j: int|
            0 <= i < after.len() && 0 <= j < after.len() && (#[trigger] after[i]) is Some && holds(
                #[trigger] after[j],
                after[i]->0.key,
            ) implies i == j by {
            assert(slots[i] is Some && holds(slots[j], slots[i]->0.key));
        }
    }
}

/// Where every chain is intact, an insertion does to the table what it does
/// to a map of bounded size: a key that is there keeps its value, a new key
/// is added with its value while a slot is empty, and is dropped once all
/// are occupied.
pub proof fn insertion_into_intact_table<T>(slots: Seq<Slot<T>>, key: Seq<char>, value: T)
    requires
        chains_intact(slots),
    ensures
        contents(with_inserted(slots, key, value)) == if contents(slots).dom().contains(key)
            || occupied(slots) == slots.len() {
            contents(slots)
        } else {
            contents(slots).insert(key, value)
        },
{
    let after = with_inserted(slots, key, value);
    insertion_fills_one_slot(slots, key, value);
    intact_chains_find_every_key(slots, key);
    if lookup(slots, key) is None && occupied(slots) < slots.len() {
        round_trip_with_room(slots, key, value);
        assert forall|other: Seq<char>| other != key implies lookup(after, other) == lookup(
            slots,
            other,
        ) by {
            if found_index(slots, other) is Some {
                insertion_keeps_found_keys(slots, key, value, other);
            } else {
                intact_chains_find_every_key(slots, other);
                keys_come_from_insertions(slots, other, key, value, 0);
                absent_key(after, other);
            }
        }
        assert(contents(after) =~= contents(slots).insert(key, value));
    } else if lookup(slots, key) is None {
        full_table_drops_insertions(slots, key, value);
    }
}

/// Read as a map, the table after a removal holds nothing that the map
/// without the removed key does not hold: the removed key is gone, and every
/// other key has the value it had or is hidden.
pub proof fn removal_from_contents<T>(slots: Seq<Slot<T>>, key: Seq<char>)
    ensures
        contents(with_removed(slots, key)).submap_of(contents(slots).remove(key)),
{
    removal_clears(slots, key);
    assert forall|other: Seq<char>| other != key implies lookup(with_removed(slots, key), other)
        is None || lookup(with_removed(slots, key), other) == lookup(slots, other) by {
        removal_hides_or_keeps(slots, key, other);
    }
}

} // verus!
