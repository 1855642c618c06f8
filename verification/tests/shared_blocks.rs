use verinode_core::arith::{doubled_up_to, max_u64, saturating_product};
use verinode_core::byte_order::{slice_before, slices_equal, text_equal};
use verinode_core::codec::{
    read_array, read_be, read_le, read_le64, u16_to_be, u32_to_le, u64_to_be, u64_to_le,
};
use verinode_core::ordered_map::OrderedMap;
use verinode_core::text::{join3, to_decimal};

#[test]
fn map_keeps_its_keys_in_order() {
    let mut map: OrderedMap<u64, &str> = OrderedMap::new();
    assert!(map.is_empty());
    for (key, value) in [(5, "e"), (1, "a"), (3, "c"), (5, "f")] {
        map.insert(key, value);
    }
    assert_eq!(map.len(), 3);
    let keys: Vec<u64> = (0..map.len()).map(|i| *map.key_at(i)).collect();
    assert_eq!(keys, vec![1, 3, 5]);
    assert_eq!(*map.value_at(2), "f");
    assert_eq!(map.get(&3), Some(&"c"));
    assert_eq!(map.get(&4), None);
    assert_eq!(map.position(&5), Some(2));
    *map.get_mut(&1).unwrap() = "z";
    assert_eq!(map.remove(&1), Some("z"));
    assert_eq!(map.remove(&1), None);
    assert_eq!(map.remove_at(0), "c");
    assert!(map.contains_key(&5));
    map.clear();
    assert_eq!(map.len(), 0);
}

#[test]
fn text_keys_are_ordered_by_their_bytes() {
    let mut map: OrderedMap<String, u8> = OrderedMap::new();
    for (i, key) in ["b", "a", "\u{e9}", "ab", ""].iter().enumerate() {
        map.insert(key.to_string(), i as u8);
    }
    let keys: Vec<String> = (0..map.len()).map(|i| map.key_at(i).clone()).collect();
    let mut sorted = keys.clone();
    sorted.sort();
    assert_eq!(keys, sorted);
    assert_eq!(map.get_text("ab"), Some(&3));
    assert_eq!(map.position_text("zz"), None);
}

#[test]
fn numbers_are_written_and_read_in_both_orders() {
    let n: u64 = 0x0102_0304_0506_0708;
    assert_eq!(u64_to_be(n), n.to_be_bytes());
    assert_eq!(u64_to_le(n), n.to_le_bytes());
    assert_eq!(u32_to_le(0x0102_0304), [4, 3, 2, 1]);
    assert_eq!(u16_to_be(0x0102), [1, 2]);
    let bytes = [0xff, 1, 2, 3, 4, 5, 6, 7, 8];
    assert_eq!(read_be(&bytes, 1, 8), n);
    assert_eq!(read_be(&bytes, 1, 2), 0x0102);
    assert_eq!(read_le(&bytes, 1, 2), 0x0201);
    assert_eq!(read_le64(&bytes, 1), n.swap_bytes());
    let part: [u8; 3] = read_array::<3>(&bytes, 2);
    assert_eq!(part, [2, 3, 4]);
}

#[test]
fn bytes_compare_as_in_a_dictionary() {
    assert!(slice_before(b"a", b"ab"));
    assert!(slice_before(b"ab", b"b"));
    assert!(!slice_before(b"b", b"b"));
    assert!(!slice_before(b"b", b"ab"));
    assert!(slices_equal(b"xy", b"xy") && !slices_equal(b"xy", b"x"));
    assert!(text_equal("xy", "xy") && !text_equal("xy", "yx"));
}

#[test]
fn decimals_and_saturation() {
    assert_eq!(to_decimal(0), "0");
    assert_eq!(to_decimal(u64::MAX), u64::MAX.to_string());
    assert_eq!(join3("a", "b", "c"), "abc");
    assert_eq!(saturating_product(u64::MAX, 2), u64::MAX);
    assert_eq!(saturating_product(7, 6), 42);
    assert_eq!(max_u64(3, 9), 9);
    assert_eq!(doubled_up_to(3, 4, 100), 48);
    assert_eq!(doubled_up_to(3, 10, 100), 100);
}
