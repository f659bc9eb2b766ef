use netty::packet_pool::{PacketPool, PACKET_SIZE};
use netty::Error;

#[test]
fn allocate_capacity_plus_one_returns_none() {
    let mut pool = PacketPool::new(3);
    let mut handles = Vec::new();
    for _ in 0..3 {
        let pkt = pool.allocate();
        assert!(pkt.is_some());
        handles.push(pkt.unwrap());
    }
    assert!(pool.allocate().is_none());
}

#[test]
fn releasing_unsent_frees_the_slot() {
    let mut pool = PacketPool::new(1);
    let pkt = pool.allocate().unwrap();
    assert!(pool.allocate().is_none());
    assert_eq!(pool.release(pkt), Ok(()));
    assert!(pool.allocate().is_some());
}

#[test]
fn releasing_sent_queues_for_transmit() {
    let mut pool = PacketPool::new(1);
    let mut pkt = pool.allocate().unwrap();
    assert_eq!(pkt.slot_index(), 0);
    let idx = pkt.slot_index();
    pkt.mark_sent();
    assert_eq!(pool.release(pkt), Ok(()));
    // The slot is queued, not free: allocation still fails.
    assert!(pool.allocate().is_none());
    // The transport drain frees it.
    assert_eq!(pool.complete_transmit(idx), Ok(()));
    assert!(pool.allocate().is_some());
}

#[test]
fn complete_transmit_on_wrong_state_is_a_contract_breach() {
    let mut pool = PacketPool::new(2);
    assert_eq!(pool.complete_transmit(0), Err(Error::PoolInvariantViolated));
    assert_eq!(pool.complete_transmit(9), Err(Error::PoolInvariantViolated));
}

#[test]
fn capacity_is_fixed() {
    let mut pool = PacketPool::new(1);
    let pkt = pool.allocate().unwrap();
    assert_eq!(pkt.capacity(), PACKET_SIZE);
    assert_eq!(PACKET_SIZE, 1568);
}

#[test]
fn write_data_bounds_and_high_water_mark() {
    let mut pool = PacketPool::new(1);
    let mut pkt = pool.allocate().unwrap();
    assert_eq!(pkt.write_data(0, &[1, 2, 3]), Ok(()));
    assert_eq!(pkt.write_data(PACKET_SIZE - 1, &[4, 5]), Err(Error::OutOfRange));
    let mut out = vec![0u8; PACKET_SIZE];
    // The used length is the high-water mark of the writes: 3.
    assert_eq!(pkt.read_data(&mut out), Ok(3));
    assert_eq!(&out[..3], &[1, 2, 3]);
}

#[test]
fn write_at_offset_lands_at_offset() {
    let mut pool = PacketPool::new(1);
    let mut pkt = pool.allocate().unwrap();
    assert_eq!(pkt.write_data(10, &[7, 8]), Ok(()));
    let mut out = vec![0u8; PACKET_SIZE];
    assert_eq!(pkt.read_data(&mut out), Ok(12));
    assert_eq!(out[10], 7);
    assert_eq!(out[11], 8);
    assert_eq!(out[9], 0);
}

#[test]
fn read_into_short_buffer_is_truncated() {
    let mut pool = PacketPool::new(1);
    let mut pkt = pool.allocate().unwrap();
    assert_eq!(pkt.write_data(0, &[1, 2, 3]), Ok(()));
    let mut out = vec![9u8; 2];
    assert_eq!(pkt.read_data(&mut out), Err(Error::Truncated));
    // The copy still filled what fit.
    assert_eq!(out, vec![1, 2]);
}

#[test]
fn a_queued_slot_keeps_its_bytes_across_other_allocations() {
    let mut pool = PacketPool::new(2);
    let mut pkt = pool.allocate().unwrap();
    assert_eq!(pkt.write_data(0, &[0xaa, 0xbb]), Ok(()));
    pkt.mark_sent();
    let idx = pkt.slot_index();
    assert_eq!(pool.release(pkt), Ok(()));
    // Work on the other slot must not disturb the queued bytes.
    let other = pool.allocate().unwrap();
    assert_ne!(other.slot_index(), idx);
    assert_eq!(pool.release(other), Ok(()));
    let reclaimed = pool.allocate().unwrap();
    assert_ne!(reclaimed.slot_index(), idx);
    assert_eq!(pool.complete_transmit(idx), Ok(()));
}
