use crabfish::transposition::{is_power_of_two, CacheItem, Flag, TTable};

const SEED: u64 = 0x517cc1b727220a95;

fn mix(state: u64, word: u64) -> u64 {
    (state.rotate_left(5) ^ word).wrapping_mul(SEED)
}

#[test]
fn round_trip_returns_stored_entry() {
    let mut table = TTable::new(16);
    let item = CacheItem::new(3, Flag::Exact, 42, 0x1234_5678_9abc_def0);
    table.set(item);
    assert_eq!(table.get(0x1234_5678_9abc_def0), Some(item));
}

#[test]
fn new_entry_keeps_its_fields() {
    let item = CacheItem::new(7, Flag::UpperBound, -150, 99);
    assert_eq!(item.depth, 7);
    assert_eq!(item.flag, Flag::UpperBound);
    assert_eq!(item.value, -150);
    assert_eq!(item.board_hash, 99);
    assert!(item.checksum_is_valid());
}

#[test]
fn checksum_is_the_fx_hash_of_the_fields() {
    if usize::BITS == 64 {
        let item = CacheItem::new(5, Flag::LowerBound, -3, 0xdead_beef_0123_4567);
        let expected = mix(mix(mix(mix(0, 5), 1), (-3i16) as u16 as u64), 0xdead_beef_0123_4567);
        assert_eq!(item.checksum, expected);
        assert_eq!(CacheItem::cache_checksum(5, Flag::LowerBound, -3, 0xdead_beef_0123_4567), expected);
        assert_ne!(item.checksum, 0xdead_beef_0123_4567);
    }
}

#[test]
fn checksum_differs_when_one_field_differs() {
    let base = CacheItem::cache_checksum(4, Flag::Exact, 100, 77);
    assert_ne!(base, CacheItem::cache_checksum(5, Flag::Exact, 100, 77));
    assert_ne!(base, CacheItem::cache_checksum(4, Flag::LowerBound, 100, 77));
    assert_ne!(base, CacheItem::cache_checksum(4, Flag::UpperBound, 100, 77));
    assert_ne!(base, CacheItem::cache_checksum(4, Flag::Exact, 101, 77));
    assert_ne!(base, CacheItem::cache_checksum(4, Flag::Exact, -100, 77));
}

#[test]
fn tampered_depth_is_a_miss() {
    let mut table = TTable::new(8);
    let mut item = CacheItem::new(3, Flag::Exact, 42, 21);
    item.depth = 4;
    assert!(!item.checksum_is_valid());
    table.set(item);
    assert_eq!(table.get(21), None);
}

#[test]
fn tampered_flag_is_a_miss() {
    let mut table = TTable::new(8);
    let mut item = CacheItem::new(3, Flag::Exact, 42, 21);
    item.flag = Flag::LowerBound;
    table.set(item);
    assert_eq!(table.get(21), None);
}

#[test]
fn tampered_value_is_a_miss() {
    let mut table = TTable::new(8);
    let mut item = CacheItem::new(3, Flag::Exact, 42, 21);
    item.value = 43;
    table.set(item);
    assert_eq!(table.get(21), None);
}

#[test]
fn tampered_checksum_is_a_miss() {
    let mut table = TTable::new(8);
    let mut item = CacheItem::new(3, Flag::Exact, 42, 21);
    item.checksum ^= 1;
    table.set(item);
    assert_eq!(table.get(21), None);
}

#[test]
fn tampered_hash_is_a_miss_for_both_hashes() {
    let mut table = TTable::new(8);
    let mut item = CacheItem::new(3, Flag::Exact, 42, 21);
    item.board_hash = 29;
    table.set(item);
    assert_eq!(table.get(21), None);
    assert_eq!(table.get(29), None);
}

#[test]
fn lookup_of_another_hash_in_the_same_slot_misses() {
    let mut table = TTable::new(8);
    let item = CacheItem::new(2, Flag::LowerBound, 10, 5);
    table.set(item);
    assert_eq!(table.get(5), Some(item));
    assert_eq!(table.get(13), None);
}

#[test]
fn store_always_replaces() {
    let mut table = TTable::new(4);
    let deep = CacheItem::new(9, Flag::Exact, 300, 6);
    let shallow = CacheItem::new(1, Flag::UpperBound, -20, 10);
    table.set(deep);
    table.set(shallow);
    assert_eq!(table.get(10), Some(shallow));
    assert_eq!(table.get(6), None);
}

#[test]
fn store_leaves_other_slots_alone() {
    let mut table = TTable::new(4);
    let first = CacheItem::new(2, Flag::Exact, 1, 1);
    let second = CacheItem::new(3, Flag::Exact, 2, 2);
    table.set(first);
    table.set(second);
    assert_eq!(table.get(1), Some(first));
    assert_eq!(table.get(2), Some(second));
}

#[test]
fn a_new_table_misses_on_every_hash() {
    let table = TTable::new(32);
    assert_eq!(table.size(), 32);
    for hash in [0u64, 1, 31, 32, 0xdead_beef, u64::MAX] {
        assert_eq!(table.get(hash), None);
    }
    assert!(!CacheItem::unused().checksum_is_valid());
    assert!(CacheItem::default().checksum_is_valid());
    assert_eq!(table.get(1), None);
    assert_eq!(CacheItem::default(), CacheItem::new(0, Flag::Exact, 0, 0));
}

#[test]
fn table_of_one_entry_works() {
    let mut table = TTable::new(1);
    let item = CacheItem::new(1, Flag::Exact, 5, 0xffff_ffff_ffff_ffff);
    table.set(item);
    assert_eq!(table.get(0xffff_ffff_ffff_ffff), Some(item));
    table.free();
}

#[test]
fn powers_of_two_are_told_apart() {
    assert!(is_power_of_two(1));
    assert!(is_power_of_two(2));
    assert!(is_power_of_two(33554432));
    assert!(!is_power_of_two(0));
    assert!(!is_power_of_two(3));
    assert!(!is_power_of_two(33554433));
}

#[test]
fn default_flag_is_lower_bound() {
    assert_eq!(Flag::default(), Flag::LowerBound);
}

#[test]
fn a_table_is_made_only_with_a_power_of_two() {
    assert!(TTable::try_new(0).is_none());
    assert!(TTable::try_new(12).is_none());
    let mut table = TTable::try_new(8).unwrap();
    assert_eq!(table.size(), 8);
    let item = CacheItem::new(1, Flag::UpperBound, -7, 15);
    table.set(item);
    assert_eq!(table.get(15), Some(item));
}
