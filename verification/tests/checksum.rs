use netty::util::checksum;

#[test]
fn calc_checksum() {
    let buf: [u8; 20] = [
        0x45, 0x00, 0x00, 0x54, 0x41, 0xe0, 0x40, 0x00, 0x40, 0x01, 0x00, 0x00, 0x0a, 0x00, 0x00,
        0x04, 0x0a, 0x00, 0x00, 0x05,
    ];
    assert_eq!(checksum(&buf), 0xe4c0);
}

#[test]
fn checksum_empty() {
    let buf: [u8; 0] = [];
    assert_eq!(checksum(&buf), 0xffff);
}

#[test]
fn checksum_odd_length_pads_with_zero() {
    // The odd trailing byte counts as the high byte of a final word.
    let odd: [u8; 3] = [0x12, 0x34, 0x56];
    let padded: [u8; 4] = [0x12, 0x34, 0x56, 0x00];
    assert_eq!(checksum(&odd), checksum(&padded));
    // 0x1234 + 0x5600 = 0x6834; complemented: 0x97cb.
    assert_eq!(checksum(&odd), 0x97cb);
}

#[test]
fn checksum_end_around_carry() {
    // 0xffff + 0x0001 folds to 0x0001; complemented: 0xfffe.
    let buf: [u8; 4] = [0xff, 0xff, 0x00, 0x01];
    assert_eq!(checksum(&buf), 0xfffe);
}

#[test]
fn checksum_is_self_verifying() {
    // Writing the checksum into the zeroed field at offset 10 makes the
    // checksum of the whole buffer zero.
    let mut buf: Vec<u8> = vec![
        0x45, 0x00, 0x00, 0x54, 0x41, 0xe0, 0x40, 0x00, 0x40, 0x01, 0x00, 0x00, 0x0a, 0x00, 0x00,
        0x04, 0x0a, 0x00, 0x00, 0x05,
    ];
    let c = checksum(&buf);
    buf[10] = (c >> 8) as u8;
    buf[11] = (c & 0xff) as u8;
    assert_eq!(checksum(&buf), 0x0000);
}
