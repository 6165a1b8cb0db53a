use rsmorphy::dawg::dictionary::Dictionary;
use rsmorphy::dawg::error::DawgError;

/// A node with the given offset (below 2^22), end-of-key flag and label.
fn node(offset: u32, has_leaf: bool, label: u8) -> u32 {
    (offset << 10) | (if has_leaf { 0x100 } else { 0 }) | u32::from(label)
}

/// The unit that holds `value`.
fn leaf(value: u32) -> u32 {
    0x8000_0000 | value
}

/// The single key "a" with the value 42.
fn dict_a() -> Dictionary {
    let mut units = vec![0u32; 256];
    units[0] = node(1, false, 0);
    units[0x60] = node(0x62, true, b'a');
    units[0x02] = leaf(42);
    Dictionary { root: 0, units }
}

/// The keys "cat" with the value 1 and "car" with the value 2.
fn dict_cat_car() -> Dictionary {
    let mut units = vec![0u32; 256];
    units[0] = node(1, false, 0);
    units[0x62] = node(0x13, false, b'c');
    units[0x10] = node(0x90, false, b'a');
    units[0xF4] = node(0xD4, true, b't');
    units[0xF2] = node(0xD3, true, b'r');
    units[0x20] = leaf(1);
    units[0x21] = leaf(2);
    Dictionary { root: 0, units }
}

#[test]
fn single_key_is_contained_and_found() {
    let d = dict_a();
    assert_eq!(d.contains("a"), Ok(true));
    assert_eq!(d.find("a"), Ok(Some(42)));
}

#[test]
fn other_key_is_neither_contained_nor_found() {
    let d = dict_a();
    assert_eq!(d.contains("b"), Ok(false));
    assert_eq!(d.find("b"), Ok(None));
    assert_eq!(d.contains("aa"), Ok(false));
    assert_eq!(d.find("aa"), Ok(None));
    assert_eq!(d.contains("ab"), Ok(false));
}

#[test]
fn empty_key_is_not_a_key_unless_the_root_ends_one() {
    let d = dict_a();
    assert_eq!(d.contains(""), Ok(false));
    assert_eq!(d.find(""), Ok(None));

    let mut with_empty = dict_a();
    with_empty.units[0] = node(1, true, 0);
    with_empty.units[1] = leaf(7);
    assert_eq!(with_empty.contains(""), Ok(true));
    assert_eq!(with_empty.find(""), Ok(Some(7)));
    assert_eq!(with_empty.find("a"), Ok(Some(42)));
}

#[test]
fn keys_with_a_common_prefix_both_resolve() {
    let d = dict_cat_car();
    assert_eq!(d.contains("cat"), Ok(true));
    assert_eq!(d.find("cat"), Ok(Some(1)));
    assert_eq!(d.contains("car"), Ok(true));
    assert_eq!(d.find("car"), Ok(Some(2)));
}

#[test]
fn proper_prefix_has_a_path_but_is_no_key() {
    let d = dict_cat_car();
    assert_eq!(d.follow_bytes("ca", d.root), Ok(Some(0x10)));
    assert_eq!(d.contains("ca"), Ok(false));
    assert_eq!(d.find("ca"), Ok(None));
    assert_eq!(d.follow_bytes("c", d.root), Ok(Some(0x62)));
    assert_eq!(d.contains("c"), Ok(false));
    assert_eq!(d.find("c"), Ok(None));
}

#[test]
fn longer_and_sibling_keys_are_absent() {
    let d = dict_cat_car();
    assert_eq!(d.contains("cats"), Ok(false));
    assert_eq!(d.find("cats"), Ok(None));
    assert_eq!(d.contains("cab"), Ok(false));
    assert_eq!(d.find("cab"), Ok(None));
    assert_eq!(d.contains("dog"), Ok(false));
    assert_eq!(d.find("dog"), Ok(None));
}

#[test]
fn repeated_lookups_agree_whatever_comes_between() {
    let d = dict_cat_car();
    let first = d.find("cat");
    assert_eq!(d.find("car"), Ok(Some(2)));
    assert_eq!(d.find("nothing"), Ok(None));
    assert_eq!(d.find("cat"), first);
    let copy = d.clone();
    assert_eq!(copy.find("cat"), first);
    assert_eq!(copy.contains("car"), d.contains("car"));
}

#[test]
fn follow_char_takes_one_edge() {
    let d = dict_cat_car();
    assert_eq!(d.follow_char(b'c', 0), Ok(Some(0x62)));
    assert_eq!(d.follow_char(b'a', 0x62), Ok(Some(0x10)));
    assert_eq!(d.follow_char(b't', 0x10), Ok(Some(0xF4)));
    assert_eq!(d.follow_char(b'r', 0x10), Ok(Some(0xF2)));
    assert_eq!(d.follow_char(b'x', 0x10), Ok(None));
    assert_eq!(d.follow_char(b'a', 0), Ok(None));
}

#[test]
fn follow_bytes_starts_where_it_is_told() {
    let d = dict_cat_car();
    assert_eq!(d.follow_bytes("", 0x62), Ok(Some(0x62)));
    assert_eq!(d.follow_bytes("at", 0x62), Ok(Some(0xF4)));
    assert_eq!(d.follow_bytes("ar", 0x62), Ok(Some(0xF2)));
    assert_eq!(d.follow_bytes("t", 0x10), Ok(Some(0xF4)));
    assert_eq!(d.follow_bytes("at", 0), Ok(None));
    assert_eq!(d.follow_bytes("", 70_000), Ok(Some(70_000)));
}

#[test]
fn has_value_and_value_read_the_node() {
    let d = dict_cat_car();
    assert_eq!(d.has_value(0xF4), Ok(true));
    assert_eq!(d.has_value(0xF2), Ok(true));
    assert_eq!(d.has_value(0x10), Ok(false));
    assert_eq!(d.has_value(0), Ok(false));
    assert_eq!(d.value(0xF4), Ok(1));
    assert_eq!(d.value(0xF2), Ok(2));
}

#[test]
fn value_unit_matches_no_label() {
    // The value of "a" sits where the byte 0 would lead from the node of
    // "a"; its top bit keeps it from being taken for a node.
    let mut d = dict_a();
    d.units[0x02] = leaf(0);
    assert_eq!(d.find("a"), Ok(Some(0)));
    assert_eq!(d.follow_bytes("a\0", d.root), Ok(None));
    assert_eq!(d.contains("a\0"), Ok(false));
}

#[test]
fn keys_are_walked_byte_by_byte() {
    // "é" is the two bytes 0xC3 0xA9.
    let mut units = vec![0u32; 256];
    units[0] = node(1, false, 0);
    units[0xC2] = node(0xC2, false, 0xC3);
    units[0xA9] = node(0xA9 ^ 0x05, true, 0xA9);
    units[0x05] = leaf(9);
    let d = Dictionary { root: 0, units };
    assert_eq!(d.follow_char(0xC3, 0), Ok(Some(0xC2)));
    assert_eq!(d.follow_bytes("é", 0), Ok(Some(0xA9)));
    assert_eq!(d.contains("é"), Ok(true));
    assert_eq!(d.find("é"), Ok(Some(9)));
    assert_eq!(d.contains("e"), Ok(false));
}

#[test]
fn extended_offset_reaches_beyond_the_first_block() {
    let mut units = vec![0u32; 512];
    // offset field 1 with the extension flag: 256
    units[0] = (1 << 10) | 0x200;
    units[0x100 ^ 0x7A] = node(0, true, b'z') ^ ((0x100 ^ 0x7A ^ 0x1F0) << 10);
    units[0x1F0] = leaf(0x7FFF_FFFF);
    let d = Dictionary { root: 0, units };
    assert_eq!(d.follow_char(b'z', 0), Ok(Some(0x17A)));
    assert_eq!(d.contains("z"), Ok(true));
    assert_eq!(d.find("z"), Ok(Some(0x7FFF_FFFF)));
}

#[test]
fn root_need_not_be_zero() {
    let mut d = dict_a();
    d.root = 0x60;
    assert_eq!(d.contains(""), Ok(true));
    assert_eq!(d.find(""), Ok(Some(42)));
    assert_eq!(d.contains("a"), Ok(false));
}

#[test]
fn empty_dictionary_has_no_root_to_read() {
    let d = Dictionary { root: 0, units: Vec::new() };
    assert_eq!(d.has_value(0), Err(DawgError::IndexOutOfRange));
    assert_eq!(d.value(0), Err(DawgError::IndexOutOfRange));
    assert_eq!(d.follow_char(b'a', 0), Err(DawgError::IndexOutOfRange));
    assert_eq!(d.follow_bytes("a", 0), Err(DawgError::IndexOutOfRange));
    assert_eq!(d.contains(""), Err(DawgError::IndexOutOfRange));
    assert_eq!(d.contains("a"), Err(DawgError::IndexOutOfRange));
    assert_eq!(d.find(""), Err(DawgError::IndexOutOfRange));
    assert_eq!(d.find("a"), Err(DawgError::IndexOutOfRange));
}

#[test]
fn index_out_of_range_is_reported() {
    let d = dict_a();
    assert_eq!(d.has_value(256), Err(DawgError::IndexOutOfRange));
    assert_eq!(d.has_value(u32::MAX), Err(DawgError::IndexOutOfRange));
    assert_eq!(d.value(256), Err(DawgError::IndexOutOfRange));
    assert_eq!(d.follow_char(b'a', 256), Err(DawgError::IndexOutOfRange));
    assert_eq!(d.follow_bytes("a", 256), Err(DawgError::IndexOutOfRange));
}

#[test]
fn transition_out_of_range_is_reported() {
    // The root points to a block that the array does not have.
    let mut units = vec![0u32; 256];
    units[0] = node(0x400, false, 0);
    let d = Dictionary { root: 0, units };
    assert_eq!(d.follow_char(b'a', 0), Err(DawgError::IndexOutOfRange));
    assert_eq!(d.contains("a"), Err(DawgError::IndexOutOfRange));
    assert_eq!(d.find("a"), Err(DawgError::IndexOutOfRange));
    assert_eq!(d.contains(""), Ok(false));
}

#[test]
fn value_out_of_range_is_reported_by_find_only() {
    let mut units = vec![0u32; 256];
    units[0] = node(1, false, 0);
    units[0x60] = node(0x460, true, b'a');
    let d = Dictionary { root: 0, units };
    assert_eq!(d.contains("a"), Ok(true));
    assert_eq!(d.value(0x60), Err(DawgError::IndexOutOfRange));
    assert_eq!(d.find("a"), Err(DawgError::IndexOutOfRange));
}

#[test]
fn error_after_a_missing_edge_is_never_reached() {
    // The walk stops at the first byte without an edge, so what lies
    // behind it is not read.
    let d = dict_a();
    assert_eq!(d.follow_bytes("ba", 0), Ok(None));
    assert_eq!(d.find("bzzzzzzzz"), Ok(None));
}

fn shared_between_threads<T: Send + Sync>(_: &T) {}

#[test]
fn dictionary_can_be_shared_between_readers() {
    let d = dict_a();
    shared_between_threads(&d);
    let first = &d;
    let second = &d;
    assert_eq!(first.find("a"), Ok(Some(42)));
    assert_eq!(second.find("a"), Ok(Some(42)));
    assert_eq!(first.units, second.units);
}
