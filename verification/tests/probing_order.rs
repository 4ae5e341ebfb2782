use probing_map::HashMap;

// In ten slots the keys "k", "u" and "a" all have the home slot 7.

#[test]
fn colliding_keys_fill_the_following_slots() {
    let mut map: HashMap<i32> = HashMap::new(10);
    assert_eq!(map.create_hash("k"), 7);
    assert_eq!(map.create_hash("u"), 7);
    assert_eq!(map.create_hash("a"), 7);
    assert_eq!(map.find_nearest_empty_slot("k"), Some(7));
    map.insert("k", 1);
    assert_eq!(map.find_nearest_empty_slot("u"), Some(8));
    map.insert("u", 2);
    assert_eq!(map.find_nearest_empty_slot("a"), Some(9));
    map.insert("a", 3);
    assert_eq!(map.find_index_by_key("k"), Some(7));
    assert_eq!(map.find_index_by_key("u"), Some(8));
    assert_eq!(map.find_index_by_key("a"), Some(9));
    assert_eq!(map.get("k"), &Some(1));
    assert_eq!(map.get("u"), &Some(2));
    assert_eq!(map.get("a"), &Some(3));
}

#[test]
fn probe_wraps_to_the_first_slot() {
    let mut map: HashMap<i32> = HashMap::new(10);
    map.insert("k", 1);
    map.insert("u", 2);
    map.insert("a", 3);
    // 107 + 10 = 117 = "u", 127 is DEL: take "\u{7f}", whose home is 7 too.
    assert_eq!(map.create_hash("\u{7f}"), 7);
    assert_eq!(map.find_nearest_empty_slot("\u{7f}"), Some(0));
    map.insert("\u{7f}", 4);
    assert_eq!(map.find_index_by_key("\u{7f}"), Some(0));
    assert_eq!(map.get("\u{7f}"), &Some(4));
}

#[test]
fn two_colliding_keys_are_both_recalled() {
    let mut map: HashMap<String> = HashMap::new(2);
    assert_eq!(map.create_hash("a"), 1);
    assert_eq!(map.create_hash("c"), 1);
    map.insert("a", String::from("first"));
    map.insert("c", String::from("second"));
    assert_eq!(map.get("a"), &Some(String::from("first")));
    assert_eq!(map.get("c"), &Some(String::from("second")));
    assert_eq!(map.find_index_by_key("a"), Some(1));
    assert_eq!(map.find_index_by_key("c"), Some(0));
}

#[test]
fn stored_key_has_no_vacant_slot() {
    let mut map: HashMap<i32> = HashMap::new(10);
    map.insert("k", 1);
    assert_eq!(map.find_nearest_empty_slot("k"), None);
    map.insert("u", 2);
    assert_eq!(map.find_nearest_empty_slot("u"), None);
    assert_eq!(map.find_nearest_empty_slot("k"), None);
}

#[test]
fn missing_key_has_no_index() {
    let mut map: HashMap<i32> = HashMap::new(10);
    assert_eq!(map.find_index_by_key("k"), None);
    map.insert("k", 1);
    assert_eq!(map.find_index_by_key("u"), None);
    assert_eq!(map.get("u"), &None);
    assert_eq!(map.remove("u"), None);
    assert_eq!(map.get("k"), &Some(1));
}

#[test]
fn removal_empties_the_slot_for_the_next_insertion() {
    let mut map: HashMap<i32> = HashMap::new(10);
    map.insert("k", 1);
    assert_eq!(map.remove("k"), Some(1));
    assert_eq!(map.find_index_by_key("k"), None);
    assert_eq!(map.find_nearest_empty_slot("k"), Some(7));
    map.insert("k", 5);
    assert_eq!(map.get("k"), &Some(5));
}

#[test]
fn second_removal_finds_nothing() {
    let mut map: HashMap<i32> = HashMap::new(10);
    map.insert("k", 1);
    assert_eq!(map.remove("k"), Some(1));
    assert_eq!(map.remove("k"), None);
}

#[test]
fn removal_hides_a_key_stored_behind_the_emptied_slot() {
    let mut map: HashMap<i32> = HashMap::new(10);
    map.insert("k", 1);
    map.insert("u", 2);
    assert_eq!(map.remove("k"), Some(1));
    // "u" still sits in slot 8, but its probe ends at the empty slot 7.
    assert_eq!(map.get("u"), &None);
    assert_eq!(map.find_index_by_key("u"), None);
    assert_eq!(map.remove("u"), None);
    // Once slot 7 is filled again the probe goes on and finds it.
    map.insert("k", 3);
    assert_eq!(map.get("u"), &Some(2));
    assert_eq!(map.find_index_by_key("u"), Some(8));
}

#[test]
fn hidden_key_can_be_stored_a_second_time() {
    let mut map: HashMap<i32> = HashMap::new(10);
    map.insert("k", 1);
    map.insert("u", 2);
    assert_eq!(map.remove("k"), Some(1));
    assert_eq!(map.find_nearest_empty_slot("u"), Some(7));
    map.insert("u", 20);
    assert_eq!(map.get("u"), &Some(20));
    assert_eq!(map.find_index_by_key("u"), Some(7));
    assert_eq!(map.remove("u"), Some(20));
    assert_eq!(map.get("u"), &None);
    map.insert("k", 3);
    assert_eq!(map.get("u"), &Some(2));
}

#[test]
fn removal_keeps_a_key_stored_before_the_emptied_slot() {
    let mut map: HashMap<i32> = HashMap::new(10);
    map.insert("k", 1);
    map.insert("u", 2);
    assert_eq!(map.remove("u"), Some(2));
    assert_eq!(map.get("k"), &Some(1));
}

#[test]
fn insertion_keeps_other_keys() {
    let mut map: HashMap<i32> = HashMap::new(10);
    map.insert("k", 1);
    map.insert("hello", 2);
    map.insert("u", 3);
    assert_eq!(map.get("k"), &Some(1));
    assert_eq!(map.get("hello"), &Some(2));
    assert_eq!(map.get("u"), &Some(3));
}

#[test]
fn next_index_wraps_only_at_the_end() {
    let map: HashMap<i32> = HashMap::new(10);
    assert_eq!(map.valid_next_index(0), 0);
    assert_eq!(map.valid_next_index(1), 1);
    assert_eq!(map.valid_next_index(9), 9);
    assert_eq!(map.valid_next_index(10), 0);
    assert_eq!(map.valid_next_index(11), 0);
    assert_eq!(map.valid_next_index(usize::MAX), 0);
}
