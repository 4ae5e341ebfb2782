use probing_map::text::same_text;
use probing_map::{HashMap, HashMapEntry};

#[test]
fn entry_holds_key_and_value() {
    let entry = HashMapEntry::new(String::from("hello"), 32);
    assert_eq!(entry.get_key(), "hello");
    assert_eq!(entry.get_value(), &Some(32));
    // Looking does not take.
    assert_eq!(entry.get_value(), &Some(32));
}

#[test]
fn entry_value_is_taken_once() {
    let mut entry = HashMapEntry::new(String::from("hello"), String::from("dragon"));
    assert_eq!(entry.remove_value(), Some(String::from("dragon")));
    assert_eq!(entry.get_value(), &None);
    assert_eq!(entry.remove_value(), None);
    assert_eq!(entry.get_key(), "hello");
}

#[test]
fn entry_clone_has_key_and_value() {
    let mut entry = HashMapEntry::new(String::from("k"), 5);
    let copy = entry.clone();
    assert_eq!(entry.remove_value(), Some(5));
    assert_eq!(copy.get_key(), "k");
    assert_eq!(copy.get_value(), &Some(5));
}

#[test]
fn table_clone_is_independent() {
    let mut map: HashMap<i32> = HashMap::new(10);
    map.insert("k", 1);
    map.insert("u", 2);
    let mut copy = map.clone();
    assert_eq!(copy.buffer_capacity(), 10);
    assert_eq!(copy.get("k"), &Some(1));
    assert_eq!(copy.get("u"), &Some(2));
    assert_eq!(copy.find_index_by_key("u"), Some(8));
    assert_eq!(copy.remove("k"), Some(1));
    assert_eq!(map.get("k"), &Some(1));
    map.insert("a", 3);
    assert_eq!(copy.get("a"), &None);
}

#[test]
fn table_can_be_printed() {
    let mut map: HashMap<i32> = HashMap::new(2);
    map.insert("a", 1);
    let text = format!("{:?}", map);
    assert!(text.contains("HashMap"));
    assert!(text.contains("\"a\""));
}

#[test]
fn same_text_compares_all_bytes() {
    assert!(same_text("", ""));
    assert!(same_text("hello", "hello"));
    assert!(!same_text("hello", "hellp"));
    assert!(!same_text("hello", "hell"));
    assert!(!same_text("", "a"));
    assert!(!same_text("jello", "hello"));
    assert!(same_text("日本語", "日本語"));
    assert!(!same_text("日本語", "日本誤"));
}
