use probing_map::HashMap;

#[test]
fn inserted_key_should_be_able_to_be_recalled_part_1() {
    let mut map: HashMap<i32> = HashMap::default();
    let key = "hello";
    let value = 32;
    map.insert(key, value);
    let recalled = map.get(key);
    assert_eq!(recalled, &Some(value))
}

#[test]
fn inserted_key_should_be_able_to_be_recalled_part_2() {
    let mut map: HashMap<String> = HashMap::default();
    let key = "hello";
    map.insert(key, String::from("dragon"));
    let recalled = map.get(key);
    assert_eq!(recalled, &Some(String::from("dragon")))
}

#[test]
fn inserted_key_should_be_able_to_be_recalled_part_3() {
    let mut map: HashMap<bool> = HashMap::default();
    let key1 = "kk";
    let value1 = true;
    map.insert(key1, value1);
    let key2 = "yeah";
    let value2 = false;
    map.insert(key2, value2);
    let recalled = map.get(key1);
    assert_eq!(recalled, &Some(value1));
    let recalled = map.get(key2);
    assert_eq!(recalled, &Some(value2));
}

#[test]
fn removed_key_should_return_none_part_1() {
    let mut map: HashMap<i32> = HashMap::default();
    let key = "hello";
    let value = 32;
    map.insert(key, value);
    let recalled = map.get(key);
    assert_eq!(recalled, &Some(value));
    assert_eq!(map.remove(key), Some(value));
    assert_eq!(map.get(key), &None);
}

#[test]
fn removed_key_should_return_none_part_2() {
    let mut map: HashMap<String> = HashMap::default();
    let key = "hello";
    let value = "dragon";
    map.insert(key, String::from(value));
    assert_eq!(map.get(key), &Some(String::from(value)));
    assert_eq!(map.remove(key), Some(String::from(value)));
    assert_eq!(map.get(key), &None);
}

#[test]
fn duplicate_key_should_not_be_inserted() {
    let mut map: HashMap<i32> = HashMap::default();
    let key = "hello";
    let value = 32;
    map.insert(key, value);
    assert_eq!(map.get(key), &Some(value));
    map.insert(key, 44);
    assert_eq!(map.get(key), &Some(value));
}
