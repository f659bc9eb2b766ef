//! The ICMPv4 codec: the 4-byte base header and, for echo messages, the
//! 4-byte echo sub-header of identifier and sequence number.

use vstd::prelude::*;

use crate::wire::{be16, be16_bytes, lemma_be16_round_trip, put_be16, put_u8, read_be16};
use crate::Error;

verus! {

pub const HEADER_SIZE: usize = 4;

pub const ECHO_HEADER_SIZE: usize = 4;

#[derive(Clone, Copy, Debug, PartialEq, Eq, Structural)]
pub enum MsgType {
    EchoReply,
    DestinationUnreachable,
    EchoRequest,
}

pub open spec fn msg_type_value(m: MsgType) -> u8 {
    match m {
        MsgType::EchoReply => 0,
        MsgType::DestinationUnreachable => 3,
        MsgType::EchoRequest => 8,
    }
}

pub open spec fn msg_type_of(v: u8) -> Option<MsgType> {
    if v == 0 {
        Some(MsgType::EchoReply)
    } else if v == 3 {
        Some(MsgType::DestinationUnreachable)
    } else if v == 8 {
        Some(MsgType::EchoRequest)
    } else {
        None
    }
}

fn msg_type_from_u8(v: u8) -> (r: Option<MsgType>)
    ensures
        r == msg_type_of(v),
{
    if v == 0 {
        Some(MsgType::EchoReply)
    } else if v == 3 {
        Some(MsgType::DestinationUnreachable)
    } else if v == 8 {
        Some(MsgType::EchoRequest)
    } else {
        None
    }
}

/// The fixed 4-byte ICMPv4 base header.
#[derive(Clone, Copy, Debug, PartialEq, Eq, Structural)]
pub struct Header {
    pub msg_type: MsgType,
    pub code: u8,
    pub checksum: u16,
}

/// The header the first `HEADER_SIZE` bytes of `s` decode to; a message
/// type outside the known set is `Unsupported`.
pub open spec fn spec_decode(s: Seq<u8>) -> Result<Header, Error> {
    if s.len() < HEADER_SIZE {
        Err(Error::Malformed)
    } else {
        match msg_type_of(s[0]) {
            None => Err(Error::Unsupported),
            Some(msg_type) => Ok(Header { msg_type, code: s[1], checksum: be16(s[2], s[3]) }),
        }
    }
}

/// The exact `HEADER_SIZE` bytes an ICMPv4 header encodes to.
pub open spec fn spec_encode(h: Header) -> Seq<u8> {
    seq![msg_type_value(h.msg_type), h.code] + be16_bytes(h.checksum)
}

impl Header {
    /// Decodes one ICMPv4 header from the front of `buf` and returns it
    /// with the number of bytes consumed.
    pub fn decode(buf: &[u8]) -> (r: Result<(Header, usize), Error>)
        ensures
            match r {
                Ok((h, n)) => spec_decode(buf@) == Ok::<Header, Error>(h) && n == HEADER_SIZE,
                Err(e) => spec_decode(buf@) == Err::<Header, Error>(e),
            },
    {
        if buf.len() < HEADER_SIZE {
            return Err(Error::Malformed);
        }
        match msg_type_from_u8(buf[0]) {
            None => Err(Error::Unsupported),
            Some(msg_type) => Ok(
                (Header { msg_type, code: buf[1], checksum: read_be16(buf, 2) }, HEADER_SIZE),
            ),
        }
    }

    /// Encodes the header into `buf` at `off` and returns the number of
    /// bytes written; everything outside that range is left untouched.
    pub fn encode(self, buf: &mut Vec<u8>, off: usize) -> (r: Result<usize, Error>)
        ensures
            final(buf)@.len() == old(buf)@.len(),
            off + HEADER_SIZE <= old(buf)@.len() ==> {
                &&& r == Ok::<usize, Error>(HEADER_SIZE)
                &&& final(buf)@.subrange(off as int, off + HEADER_SIZE) == spec_encode(self)
                &&& forall|j: int|
                    0 <= j < final(buf)@.len() && !(off <= j < off + HEADER_SIZE)
                        ==> final(buf)@[j] == old(buf)@[j]
            },
            off + HEADER_SIZE > old(buf)@.len() ==> r == Err::<usize, Error>(Error::BufferTooSmall)
                && final(buf)@ == old(buf)@,
    {
        if buf.len() < HEADER_SIZE || off > buf.len() - HEADER_SIZE {
            return Err(Error::BufferTooSmall);
        }
        let raw_type: u8 = match self.msg_type {
            MsgType::EchoReply => 0,
            MsgType::DestinationUnreachable => 3,
            MsgType::EchoRequest => 8,
        };
        put_u8(buf, off, raw_type);
        put_u8(buf, off + 1, self.code);
        put_be16(buf, off + 2, self.checksum);
        proof {
            assert(final(buf)@.subrange(off as int, off + HEADER_SIZE) =~= spec_encode(self));
        }
        Ok(HEADER_SIZE)
    }
}

/// Round trip: every ICMPv4 header decodes back from its own encoding.
pub proof fn lemma_round_trip(h: Header)
    ensures
        spec_encode(h).len() == HEADER_SIZE,
        spec_decode(spec_encode(h)) == Ok::<Header, Error>(h),
{
    let s = spec_encode(h);
    lemma_be16_round_trip(h.checksum);
    assert(be16(s[2], s[3]) == h.checksum);
}

/// The echo sub-header that follows the base header in echo messages.
#[derive(Clone, Copy, Debug, PartialEq, Eq, Structural)]
pub struct EchoHeader {
    pub id: u16,
    pub seq: u16,
}

/// The echo sub-header the first `ECHO_HEADER_SIZE` bytes of `s` decode to.
pub open spec fn spec_echo_decode(s: Seq<u8>) -> Result<EchoHeader, Error> {
    if s.len() < ECHO_HEADER_SIZE {
        Err(Error::Malformed)
    } else {
        Ok(EchoHeader { id: be16(s[0], s[1]), seq: be16(s[2], s[3]) })
    }
}

/// The exact `ECHO_HEADER_SIZE` bytes an echo sub-header encodes to.
pub open spec fn spec_echo_encode(h: EchoHeader) -> Seq<u8> {
    be16_bytes(h.id) + be16_bytes(h.seq)
}

impl EchoHeader {
    /// Decodes one echo sub-header from the front of `buf` and returns it
    /// with the number of bytes consumed.
    pub fn decode(buf: &[u8]) -> (r: Result<(EchoHeader, usize), Error>)
        ensures
            match r {
                Ok((h, n)) => spec_echo_decode(buf@) == Ok::<EchoHeader, Error>(h) && n
                    == ECHO_HEADER_SIZE,
                Err(e) => spec_echo_decode(buf@) == Err::<EchoHeader, Error>(e),
            },
    {
        if buf.len() < ECHO_HEADER_SIZE {
            return Err(Error::Malformed);
        }
        Ok((EchoHeader { id: read_be16(buf, 0), seq: read_be16(buf, 2) }, ECHO_HEADER_SIZE))
    }

    /// Encodes the sub-header into `buf` at `off` and returns the number
    /// of bytes written; everything outside that range is left untouched.
    pub fn encode(self, buf: &mut Vec<u8>, off: usize) -> (r: Result<usize, Error>)
        ensures
            final(buf)@.len() == old(buf)@.len(),
            off + ECHO_HEADER_SIZE <= old(buf)@.len() ==> {
                &&& r == Ok::<usize, Error>(ECHO_HEADER_SIZE)
                &&& final(buf)@.subrange(off as int, off + ECHO_HEADER_SIZE) == spec_echo_encode(
                    self,
                )
                &&& forall|j: int|
                    0 <= j < final(buf)@.len() && !(off <= j < off + ECHO_HEADER_SIZE)
                        ==> final(buf)@[j] == old(buf)@[j]
            },
            off + ECHO_HEADER_SIZE > old(buf)@.len() ==> r == Err::<usize, Error>(
                Error::BufferTooSmall,
            ) && final(buf)@ == old(buf)@,
    {
        if buf.len() < ECHO_HEADER_SIZE || off > buf.len() - ECHO_HEADER_SIZE {
            return Err(Error::BufferTooSmall);
        }
        put_be16(buf, off, self.id);
        put_be16(buf, off + 2, self.seq);
        proof {
            assert(final(buf)@.subrange(off as int, off + ECHO_HEADER_SIZE) =~= spec_echo_encode(
                self,
            ));
        }
        Ok(ECHO_HEADER_SIZE)
    }
}

/// Round trip: every echo sub-header decodes back from its own encoding.
pub proof fn lemma_echo_round_trip(h: EchoHeader)
    ensures
        spec_echo_encode(h).len() == ECHO_HEADER_SIZE,
        spec_echo_decode(spec_echo_encode(h)) == Ok::<EchoHeader, Error>(h),
{
    let s = spec_echo_encode(h);
    lemma_be16_round_trip(h.id);
    lemma_be16_round_trip(h.seq);
    assert(be16(s[0], s[1]) == h.id);
    assert(be16(s[2], s[3]) == h.seq);
}

} // verus!
