//! Big-endian integer and hardware-address accessors shared by the header
//! codecs. All multi-byte wire fields are network order.

use vstd::prelude::*;

verus! {

/// A 16-bit big-endian integer assembled from two bytes.
pub open spec fn be16(hi: u8, lo: u8) -> u16 {
    (hi * 0x100 + lo) as u16
}

/// The two big-endian bytes of a 16-bit integer.
pub open spec fn be16_bytes(v: u16) -> Seq<u8> {
    seq![(v / 0x100) as u8, (v % 0x100) as u8]
}

/// A 32-bit big-endian integer assembled from four bytes.
pub open spec fn be32(b0: u8, b1: u8, b2: u8, b3: u8) -> u32 {
    (b0 * 0x1000000 + b1 * 0x10000 + b2 * 0x100 + b3) as u32
}

/// The four big-endian bytes of a 32-bit integer.
pub open spec fn be32_bytes(v: u32) -> Seq<u8> {
    seq![
        (v / 0x1000000) as u8,
        ((v / 0x10000) % 0x100) as u8,
        ((v / 0x100) % 0x100) as u8,
        (v % 0x100) as u8,
    ]
}

/// The six bytes of a hardware address taken from a byte sequence at `off`.
pub open spec fn mac_from(s: Seq<u8>, off: int) -> [u8; 6]
    recommends
        0 <= off,
        off + 6 <= s.len(),
{
    [s[off], s[off + 1], s[off + 2], s[off + 3], s[off + 4], s[off + 5]]
}

pub proof fn lemma_be16_round_trip(v: u16)
    ensures
        be16(be16_bytes(v)[0], be16_bytes(v)[1]) == v,
{
    vstd::arithmetic::div_mod::lemma_fundamental_div_mod(v as int, 0x100);
}

pub proof fn lemma_be32_round_trip(v: u32)
    ensures
        be32(be32_bytes(v)[0], be32_bytes(v)[1], be32_bytes(v)[2], be32_bytes(v)[3]) == v,
{
    vstd::arithmetic::div_mod::lemma_fundamental_div_mod(v as int, 0x100);
    vstd::arithmetic::div_mod::lemma_fundamental_div_mod(v as int / 0x100, 0x100);
    vstd::arithmetic::div_mod::lemma_fundamental_div_mod(v as int / 0x10000, 0x100);
}

pub proof fn lemma_mac_from_view(s: Seq<u8>, off: int)
    requires
        0 <= off,
        off + 6 <= s.len(),
    ensures
        mac_from(s, off)@ =~= s.subrange(off, off + 6),
{
    broadcast use vstd::array::group_array_axioms;

}

pub fn read_be16(buf: &[u8], off: usize) -> (r: u16)
    requires
        off + 2 <= buf@.len(),
    ensures
        r == be16(buf@[off as int], buf@[off + 1]),
{
    (buf[off] as u16) * 0x100 + (buf[off + 1] as u16)
}

pub fn read_be32(buf: &[u8], off: usize) -> (r: u32)
    requires
        off + 4 <= buf@.len(),
    ensures
        r == be32(buf@[off as int], buf@[off + 1], buf@[off + 2], buf@[off + 3]),
{
    (buf[off] as u32) * 0x1000000 + (buf[off + 1] as u32) * 0x10000 + (buf[off + 2] as u32) * 0x100
        + (buf[off + 3] as u32)
}

pub fn read_mac(buf: &[u8], off: usize) -> (r: [u8; 6])
    requires
        off + 6 <= buf@.len(),
    ensures
        r == mac_from(buf@, off as int),
{
    [buf[off], buf[off + 1], buf[off + 2], buf[off + 3], buf[off + 4], buf[off + 5]]
}

/// A vector of `n` zero bytes, the canvas every frame is encoded onto.
pub fn zero_vec(n: usize) -> (r: Vec<u8>)
    ensures
        r@.len() == n,
        forall|j: int| 0 <= j < n ==> r@[j] == 0u8,
{
    let mut r: Vec<u8> = Vec::new();
    let mut i: usize = 0;
    while i < n
        invariant
            i <= n,
            r@.len() == i,
            forall|j: int| 0 <= j < i ==> r@[j] == 0u8,
        decreases n - i,
    {
        r.push(0);
        i = i + 1;
    }
    r
}

pub fn put_u8(buf: &mut Vec<u8>, off: usize, v: u8)
    requires
        off < old(buf).len(),
    ensures
        final(buf)@.len() == old(buf)@.len(),
        final(buf)@[off as int] == v,
        forall|j: int| 0 <= j < final(buf)@.len() && j != off ==> final(buf)@[j] == old(buf)@[j],
{
    buf[off] = v;
}

pub fn put_be16(buf: &mut Vec<u8>, off: usize, v: u16)
    requires
        off + 2 <= old(buf).len(),
    ensures
        final(buf)@.len() == old(buf)@.len(),
        final(buf)@.subrange(off as int, off + 2) =~= be16_bytes(v),
        forall|j: int| 0 <= j < final(buf)@.len() && !(off <= j < off + 2) ==> final(buf)@[j] == old(buf)@[j],
{
    buf[off] = (v / 0x100) as u8;
    buf[off + 1] = (v % 0x100) as u8;
}

pub fn put_be32(buf: &mut Vec<u8>, off: usize, v: u32)
    requires
        off + 4 <= old(buf).len(),
    ensures
        final(buf)@.len() == old(buf)@.len(),
        final(buf)@.subrange(off as int, off + 4) =~= be32_bytes(v),
        forall|j: int| 0 <= j < final(buf)@.len() && !(off <= j < off + 4) ==> final(buf)@[j] == old(buf)@[j],
{
    buf[off] = (v / 0x1000000) as u8;
    buf[off + 1] = ((v / 0x10000) % 0x100) as u8;
    buf[off + 2] = ((v / 0x100) % 0x100) as u8;
    buf[off + 3] = (v % 0x100) as u8;
}

pub fn put_mac(buf: &mut Vec<u8>, off: usize, mac: &[u8; 6])
    requires
        off + 6 <= old(buf).len(),
    ensures
        final(buf)@.len() == old(buf)@.len(),
        final(buf)@.subrange(off as int, off + 6) =~= mac@,
        forall|j: int| 0 <= j < final(buf)@.len() && !(off <= j < off + 6) ==> final(buf)@[j] == old(buf)@[j],
{
    broadcast use vstd::array::group_array_axioms;

    buf[off] = mac[0];
    buf[off + 1] = mac[1];
    buf[off + 2] = mac[2];
    buf[off + 3] = mac[3];
    buf[off + 4] = mac[4];
    buf[off + 5] = mac[5];
}

} // verus!
