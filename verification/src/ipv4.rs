//! The fixed 20-byte IPv4 header codec. Options are not supported: a
//! header length other than 5 is accepted on decode but not specially
//! handled.

use vstd::prelude::*;

use crate::wire::{
    be16, be16_bytes, be32, be32_bytes, lemma_be16_round_trip, lemma_be32_round_trip, put_be16,
    put_be32, put_u8, read_be16, read_be32,
};
use crate::Error;

verus! {

pub const HEADER_SIZE: usize = 20;

/// The IPv4 protocol number of ICMP.
pub const PROTO_ICMPV4: u8 = 1;

#[derive(Clone, Copy, Debug, PartialEq, Eq, Structural)]
pub struct Header {
    pub version: u8,
    pub internet_header_len: u8,
    pub type_of_service: u8,
    pub datagram_len: u16,
    pub id: u16,
    pub control_flags: u8,
    pub fragment_offset: u16,
    pub time_to_live: u8,
    pub proto: u8,
    pub checksum: u16,
    pub src_addr: u32,
    pub dst_addr: u32,
}

/// The sub-byte fields stay within their wire widths: the version and the
/// header length are nibbles, the control flags three bits, the fragment
/// offset thirteen. Every decoded header satisfies this, and encoding asks
/// for it.
pub open spec fn header_valid(h: Header) -> bool {
    &&& h.version < 0x10
    &&& h.internet_header_len < 0x10
    &&& h.control_flags < 0x8
    &&& h.fragment_offset < 0x2000
}

/// The header the first `HEADER_SIZE` bytes of `s` decode to. The version
/// is the high nibble of the first byte and the header length the low one;
/// the control flags are the top three bits of the 16-bit word they share
/// with the fragment offset.
pub open spec fn spec_decode(s: Seq<u8>) -> Result<Header, Error> {
    if s.len() < HEADER_SIZE {
        Err(Error::Malformed)
    } else {
        Ok(
            Header {
                version: (s[0] / 0x10) as u8,
                internet_header_len: (s[0] % 0x10) as u8,
                type_of_service: s[1],
                datagram_len: be16(s[2], s[3]),
                id: be16(s[4], s[5]),
                control_flags: (be16(s[6], s[7]) / 0x2000) as u8,
                fragment_offset: (be16(s[6], s[7]) % 0x2000) as u16,
                time_to_live: s[8],
                proto: s[9],
                checksum: be16(s[10], s[11]),
                src_addr: be32(s[12], s[13], s[14], s[15]),
                dst_addr: be32(s[16], s[17], s[18], s[19]),
            },
        )
    }
}

/// The exact `HEADER_SIZE` bytes a valid header encodes to.
pub open spec fn spec_encode(h: Header) -> Seq<u8>
    recommends
        header_valid(h),
{
    seq![(h.version * 0x10 + h.internet_header_len) as u8, h.type_of_service]
        + be16_bytes(h.datagram_len) + be16_bytes(h.id) + be16_bytes(
        (h.control_flags * 0x2000 + h.fragment_offset) as u16,
    ) + seq![h.time_to_live, h.proto] + be16_bytes(h.checksum) + be32_bytes(h.src_addr)
        + be32_bytes(h.dst_addr)
}

impl Header {
    /// Decodes one IPv4 header from the front of `buf` and returns it with
    /// the number of bytes consumed.
    pub fn decode(buf: &[u8]) -> (r: Result<(Header, usize), Error>)
        ensures
            match r {
                Ok((h, n)) => spec_decode(buf@) == Ok::<Header, Error>(h) && n == HEADER_SIZE
                    && header_valid(h),
                Err(e) => spec_decode(buf@) == Err::<Header, Error>(e),
            },
    {
        if buf.len() < HEADER_SIZE {
            return Err(Error::Malformed);
        }
        let version_and_ihl = buf[0];
        let flags_and_frag_offset = read_be16(buf, 6);
        Ok(
            (
                Header {
                    version: version_and_ihl / 0x10,
                    internet_header_len: version_and_ihl % 0x10,
                    type_of_service: buf[1],
                    datagram_len: read_be16(buf, 2),
                    id: read_be16(buf, 4),
                    control_flags: (flags_and_frag_offset / 0x2000) as u8,
                    fragment_offset: flags_and_frag_offset % 0x2000,
                    time_to_live: buf[8],
                    proto: buf[9],
                    checksum: read_be16(buf, 10),
                    src_addr: read_be32(buf, 12),
                    dst_addr: read_be32(buf, 16),
                },
                HEADER_SIZE,
            ),
        )
    }

    /// Encodes the header into `buf` at `off` and returns the number of
    /// bytes written; everything outside that range is left untouched.
    pub fn encode(self, buf: &mut Vec<u8>, off: usize) -> (r: Result<usize, Error>)
        requires
            header_valid(self),
        ensures
            final(buf)@.len() == old(buf)@.len(),
            off + HEADER_SIZE <= old(buf)@.len() ==> {
                &&& r == Ok::<usize, Error>(HEADER_SIZE)
                &&& final(buf)@.subrange(off as int, off + HEADER_SIZE) == spec_encode(self)
                &&& forall|j: int|
                    0 <= j < final(buf)@.len() && !(off <= j < off + HEADER_SIZE)
                        ==> final(buf)@[j] == old(buf)@[j]
            },
            off + HEADER_SIZE > old(buf)@.len() ==> r == Err::<usize, Error>(Error::BufferTooSmall)
                && final(buf)@ == old(buf)@,
    {
        if buf.len() < HEADER_SIZE || off > buf.len() - HEADER_SIZE {
            return Err(Error::BufferTooSmall);
        }
        put_u8(buf, off, self.version * 0x10 + self.internet_header_len);
        put_u8(buf, off + 1, self.type_of_service);
        put_be16(buf, off + 2, self.datagram_len);
        put_be16(buf, off + 4, self.id);
        put_be16(buf, off + 6, (self.control_flags as u16) * 0x2000 + self.fragment_offset);
        put_u8(buf, off + 8, self.time_to_live);
        put_u8(buf, off + 9, self.proto);
        put_be16(buf, off + 10, self.checksum);
        put_be32(buf, off + 12, self.src_addr);
        put_be32(buf, off + 16, self.dst_addr);
        proof {
            assert(final(buf)@.subrange(off as int, off + HEADER_SIZE) =~= spec_encode(self));
        }
        Ok(HEADER_SIZE)
    }
}

/// Round trip: every header whose sub-byte fields are in range decodes
/// back from its own encoding.
pub proof fn lemma_round_trip(h: Header)
    requires
        header_valid(h),
    ensures
        spec_encode(h).len() == HEADER_SIZE,
        spec_decode(spec_encode(h)) == Ok::<Header, Error>(h),
{
    let s = spec_encode(h);
    lemma_be16_round_trip(h.datagram_len);
    lemma_be16_round_trip(h.id);
    lemma_be16_round_trip((h.control_flags * 0x2000 + h.fragment_offset) as u16);
    lemma_be16_round_trip(h.checksum);
    lemma_be32_round_trip(h.src_addr);
    lemma_be32_round_trip(h.dst_addr);
    vstd::arithmetic::div_mod::lemma_fundamental_div_mod_converse_mod(
        h.version * 0x10 + h.internet_header_len,
        0x10,
        h.version as int,
        h.internet_header_len as int,
    );
    vstd::arithmetic::div_mod::lemma_fundamental_div_mod_converse_div(
        h.version * 0x10 + h.internet_header_len,
        0x10,
        h.version as int,
        h.internet_header_len as int,
    );
    vstd::arithmetic::div_mod::lemma_fundamental_div_mod_converse_mod(
        h.control_flags * 0x2000 + h.fragment_offset,
        0x2000,
        h.control_flags as int,
        h.fragment_offset as int,
    );
    vstd::arithmetic::div_mod::lemma_fundamental_div_mod_converse_div(
        h.control_flags * 0x2000 + h.fragment_offset,
        0x2000,
        h.control_flags as int,
        h.fragment_offset as int,
    );
    assert(be16(s[2], s[3]) == h.datagram_len);
    assert(be16(s[6], s[7]) == (h.control_flags * 0x2000 + h.fragment_offset) as u16);
    assert(be32(s[12], s[13], s[14], s[15]) == h.src_addr);
    assert(be32(s[16], s[17], s[18], s[19]) == h.dst_addr);
}

} // verus!
