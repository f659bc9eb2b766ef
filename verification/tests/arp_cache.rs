use netty::arp::{ArpCache, HwType};
use netty::Error;

#[test]
fn distinct_inserts_fill_to_capacity_then_report_full() {
    let mut cache = ArpCache::new(4);
    for i in 0..4u32 {
        let r = cache.upsert(HwType::Ethernet, 0x0a000001 + i, [i as u8; 6]);
        assert_eq!(r, Ok(()));
    }
    // The fifth distinct key is rejected and every entry stays.
    let r = cache.upsert(HwType::Ethernet, 0x0a000010, [9; 6]);
    assert_eq!(r, Err(Error::CacheFull));
    for i in 0..4u32 {
        assert_eq!(cache.lookup(0x0a000001 + i), Some([i as u8; 6]));
    }
    assert_eq!(cache.lookup(0x0a000010), None);
}

#[test]
fn reinserting_a_key_updates_in_place() {
    let mut cache = ArpCache::new(2);
    assert_eq!(cache.upsert(HwType::Ethernet, 0x0a000001, [1; 6]), Ok(()));
    assert_eq!(cache.upsert(HwType::Ethernet, 0x0a000002, [2; 6]), Ok(()));
    // The table is full, yet the update of an existing key still succeeds
    // and consumes no new slot.
    assert_eq!(cache.upsert(HwType::Ethernet, 0x0a000001, [7; 6]), Ok(()));
    assert_eq!(cache.lookup(0x0a000001), Some([7; 6]));
    assert_eq!(cache.lookup(0x0a000002), Some([2; 6]));
}

#[test]
fn lookup_misses_on_empty_cache() {
    let cache = ArpCache::new(8);
    assert_eq!(cache.lookup(0x0a000001), None);
}
