//! The Ethernet frame header: destination and source hardware addresses
//! followed by a 16-bit ethertype. An unrecognized ethertype is a decode
//! failure, not a silent pass-through.

use vstd::prelude::*;

use crate::wire::{
    be16, be16_bytes, lemma_be16_round_trip, lemma_mac_from_view, mac_from, put_be16, put_mac,
    read_be16, read_mac,
};
use crate::Error;

verus! {

pub const HEADER_SIZE: usize = 14;

#[derive(Clone, Copy, Debug, PartialEq, Eq, Structural)]
pub enum Ethertype {
    IPv4,
    ARP,
    RARP,
}

/// The wire value of each known ethertype.
pub open spec fn ethertype_value(e: Ethertype) -> u16 {
    match e {
        Ethertype::IPv4 => 0x0800,
        Ethertype::ARP => 0x0806,
        Ethertype::RARP => 0x8035,
    }
}

/// The ethertype a wire value stands for, if it is a known one.
pub open spec fn ethertype_of(v: u16) -> Option<Ethertype> {
    if v == 0x0800 {
        Some(Ethertype::IPv4)
    } else if v == 0x0806 {
        Some(Ethertype::ARP)
    } else if v == 0x8035 {
        Some(Ethertype::RARP)
    } else {
        None
    }
}

fn ethertype_to_u16(e: Ethertype) -> (r: u16)
    ensures
        r == ethertype_value(e),
{
    match e {
        Ethertype::IPv4 => 0x0800,
        Ethertype::ARP => 0x0806,
        Ethertype::RARP => 0x8035,
    }
}

fn ethertype_from_u16(v: u16) -> (r: Option<Ethertype>)
    ensures
        r == ethertype_of(v),
{
    if v == 0x0800 {
        Some(Ethertype::IPv4)
    } else if v == 0x0806 {
        Some(Ethertype::ARP)
    } else if v == 0x8035 {
        Some(Ethertype::RARP)
    } else {
        None
    }
}

#[derive(Clone, Copy, Debug, PartialEq)]
pub struct Header {
    pub dmac: [u8; 6],
    pub smac: [u8; 6],
    pub ethertype: Ethertype,
}

/// The header the first `HEADER_SIZE` bytes of `s` decode to: `Malformed`
/// when fewer bytes are there, `Unsupported` when the ethertype is unknown.
pub open spec fn spec_decode(s: Seq<u8>) -> Result<Header, Error> {
    if s.len() < HEADER_SIZE {
        Err(Error::Malformed)
    } else {
        match ethertype_of(be16(s[12], s[13])) {
            None => Err(Error::Unsupported),
            Some(ethertype) => Ok(
                Header { dmac: mac_from(s, 0), smac: mac_from(s, 6), ethertype },
            ),
        }
    }
}

/// The exact `HEADER_SIZE` bytes a header encodes to.
pub open spec fn spec_encode(h: Header) -> Seq<u8> {
    h.dmac@ + h.smac@ + be16_bytes(ethertype_value(h.ethertype))
}

impl Header {
    /// Decodes one Ethernet header from the front of `buf` and returns it
    /// with the number of bytes consumed.
    pub fn decode(buf: &[u8]) -> (r: Result<(Header, usize), Error>)
        ensures
            match r {
                Ok((h, n)) => spec_decode(buf@) == Ok::<Header, Error>(h) && n == HEADER_SIZE,
                Err(e) => spec_decode(buf@) == Err::<Header, Error>(e),
            },
    {
        if buf.len() < HEADER_SIZE {
            return Err(Error::Malformed);
        }
        let dmac = read_mac(buf, 0);
        let smac = read_mac(buf, 6);
        let raw_ethertype = read_be16(buf, 12);
        match ethertype_from_u16(raw_ethertype) {
            None => Err(Error::Unsupported),
            Some(ethertype) => Ok((Header { dmac, smac, ethertype }, HEADER_SIZE)),
        }
    }

    /// Encodes the header into `buf` at `off` and returns the number of
    /// bytes written; everything outside that range is left untouched.
    pub fn encode(self, buf: &mut Vec<u8>, off: usize) -> (r: Result<usize, Error>)
        ensures
            final(buf)@.len() == old(buf)@.len(),
            off + HEADER_SIZE <= old(buf)@.len() ==> {
                &&& r == Ok::<usize, Error>(HEADER_SIZE)
                &&& final(buf)@.subrange(off as int, off + HEADER_SIZE) == spec_encode(self)
                &&& forall|j: int|
                    0 <= j < final(buf)@.len() && !(off <= j < off + HEADER_SIZE)
                        ==> final(buf)@[j] == old(buf)@[j]
            },
            off + HEADER_SIZE > old(buf)@.len() ==> r == Err::<usize, Error>(Error::BufferTooSmall)
                && final(buf)@ == old(buf)@,
    {
        if buf.len() < HEADER_SIZE || off > buf.len() - HEADER_SIZE {
            return Err(Error::BufferTooSmall);
        }
        put_mac(buf, off, &self.dmac);
        put_mac(buf, off + 6, &self.smac);
        put_be16(buf, off + 12, ethertype_to_u16(self.ethertype));
        proof {
            assert(buf@.subrange(off as int, off + HEADER_SIZE) =~= spec_encode(self));
        }
        Ok(HEADER_SIZE)
    }
}

/// Round trip: every header decodes back from its own encoding, and the
/// encoding is exactly `HEADER_SIZE` bytes long.
pub proof fn lemma_round_trip(h: Header)
    ensures
        spec_encode(h).len() == HEADER_SIZE,
        spec_decode(spec_encode(h)) == Ok::<Header, Error>(h),
{
    broadcast use vstd::array::group_array_axioms;

    let s = spec_encode(h);
    lemma_be16_round_trip(ethertype_value(h.ethertype));
    assert(be16(s[12], s[13]) == ethertype_value(h.ethertype));
    lemma_mac_from_view(s, 0);
    lemma_mac_from_view(s, 6);
    assert(mac_from(s, 0)@ =~= h.dmac@);
    assert(mac_from(s, 6)@ =~= h.smac@);
    assert(mac_from(s, 0) == h.dmac);
    assert(mac_from(s, 6) == h.smac);
}

} // verus!
