use probing_map::hashing::hash_bytes;
use probing_map::HashMap;

#[test]
fn single_byte_counts_once() {
    let map: HashMap<i32> = HashMap::new(100);
    assert_eq!(map.create_hash("a"), 97);
    assert_eq!(hash_bytes(b"a", 100), 97);
}

#[test]
fn empty_key_hashes_to_zero() {
    let map: HashMap<i32> = HashMap::new(7);
    assert_eq!(map.create_hash(""), 0);
}

#[test]
fn second_byte_weighs_256() {
    // 97 + 98 * 256 = 25185
    let map: HashMap<i32> = HashMap::new(1000);
    assert_eq!(map.create_hash("ab"), 185);
    // 98 + 97 * 256 = 24930
    assert_eq!(map.create_hash("ba"), 930);
}

#[test]
fn fourth_byte_weighs_256_squared() {
    // 97 + 98 * 256 + 97 + 98 * 65536 = 6447810
    assert_eq!(hash_bytes(b"abab", 100000), 47810);
    let map: HashMap<i32> = HashMap::new(100000);
    assert_eq!(map.create_hash("abab"), 47810);
}

#[test]
fn hello_in_a_hundred_slots() {
    // 104 + 101 * 256 + 108 + 108 * 65536 + 111 = 7104067
    let map: HashMap<i32> = HashMap::default();
    assert_eq!(map.create_hash("hello"), 67);
    assert_eq!(map.create_hash("kk"), 99);
    assert_eq!(map.create_hash("yeah"), 18);
    assert_eq!(map.create_hash("bye"), 75);
}

#[test]
fn long_key_wraps_around_in_64_bits() {
    // The weighted sum of these sixteen bytes is 2073992187893753603392,
    // of which 64 bits keep 7956851638283822400.
    assert_eq!(hash_bytes(b"abcdefghijklmnop", 1000003), 519000);
    let map: HashMap<i32> = HashMap::new(1000);
    assert_eq!(map.create_hash("abcdefghijklmnopqrstuvwxyz"), 985);
}

#[test]
fn bytes_past_the_eighth_odd_place_count_for_nothing_at_odd_places() {
    // From the sixteenth byte on the shared multiplier has wrapped to 0.
    assert_eq!(
        hash_bytes(b"abcdefghijklmnop", 1000003),
        hash_bytes(b"abcdefghijklmnoz", 1000003)
    );
    assert_ne!(
        hash_bytes(b"abcdefghijklmnop", 1000003),
        hash_bytes(b"abcdefghijklmnzp", 1000003)
    );
}

#[test]
fn text_is_hashed_by_its_utf8_bytes() {
    // "é" is 0xC3 0xA9: 195 + 169 * 256 = 43459
    let map: HashMap<i32> = HashMap::new(100);
    assert_eq!(map.create_hash("é"), 59);
    assert_eq!(hash_bytes(&[0xC3, 0xA9], 100), 59);
    let map: HashMap<i32> = HashMap::new(97);
    assert_eq!(map.create_hash("日本語"), 41);
}

#[test]
fn high_bytes_count_as_unsigned() {
    // 255 stays 255: 255 + 255 * 256 = 65535
    assert_eq!(hash_bytes(&[255, 255], 100000), 65535);
}

#[test]
fn index_lies_inside_the_table() {
    for capacity in 1..50usize {
        let map: HashMap<i32> = HashMap::new(capacity);
        for key in ["", "a", "hello", "abcdefghijklmnopqrstuvwxyz", "日本語"] {
            assert!(map.create_hash(key) < capacity);
        }
    }
}

#[test]
fn one_slot_gives_every_key_the_same_home() {
    let map: HashMap<i32> = HashMap::new(1);
    assert_eq!(map.create_hash("a"), 0);
    assert_eq!(map.create_hash("b"), 0);
}
