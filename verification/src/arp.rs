//! The ARP message codec (header plus IPv4 address-resolution payload) and
//! the fixed-capacity ARP translation cache.

use vstd::prelude::*;

use crate::wire::{
    be16, be16_bytes, be32, be32_bytes, lemma_be16_round_trip, lemma_be32_round_trip,
    lemma_mac_from_view, mac_from, put_be16, put_be32, put_mac, put_u8, read_be16, read_be32,
    read_mac,
};
use crate::Error;

verus! {

pub const HEADER_SIZE: usize = 8;

pub const IPV4_DATA_SIZE: usize = 20;

#[derive(Clone, Copy, Debug, PartialEq, Eq, Structural)]
pub enum HwType {
    Ethernet,
}

#[derive(Clone, Copy, Debug, PartialEq, Eq, Structural)]
pub enum ProtocolType {
    Ipv4,
}

#[derive(Clone, Copy, Debug, PartialEq, Eq, Structural)]
pub enum Opcode {
    ArpRequest,
    ArpReply,
    RarpRequest,
    RarpReply,
}

pub open spec fn hwtype_value(h: HwType) -> u16 {
    match h {
        HwType::Ethernet => 0x0001,
    }
}

pub open spec fn hwtype_of(v: u16) -> Option<HwType> {
    if v == 0x0001 {
        Some(HwType::Ethernet)
    } else {
        None
    }
}

pub open spec fn protype_value(p: ProtocolType) -> u16 {
    match p {
        ProtocolType::Ipv4 => 0x0800,
    }
}

pub open spec fn protype_of(v: u16) -> Option<ProtocolType> {
    if v == 0x0800 {
        Some(ProtocolType::Ipv4)
    } else {
        None
    }
}

pub open spec fn opcode_value(o: Opcode) -> u16 {
    match o {
        Opcode::ArpRequest => 1,
        Opcode::ArpReply => 2,
        Opcode::RarpRequest => 3,
        Opcode::RarpReply => 4,
    }
}

pub open spec fn opcode_of(v: u16) -> Option<Opcode> {
    if v == 1 {
        Some(Opcode::ArpRequest)
    } else if v == 2 {
        Some(Opcode::ArpReply)
    } else if v == 3 {
        Some(Opcode::RarpRequest)
    } else if v == 4 {
        Some(Opcode::RarpReply)
    } else {
        None
    }
}

fn hwtype_from_u16(v: u16) -> (r: Option<HwType>)
    ensures
        r == hwtype_of(v),
{
    if v == 0x0001 {
        Some(HwType::Ethernet)
    } else {
        None
    }
}

fn protype_from_u16(v: u16) -> (r: Option<ProtocolType>)
    ensures
        r == protype_of(v),
{
    if v == 0x0800 {
        Some(ProtocolType::Ipv4)
    } else {
        None
    }
}

fn opcode_from_u16(v: u16) -> (r: Option<Opcode>)
    ensures
        r == opcode_of(v),
{
    if v == 1 {
        Some(Opcode::ArpRequest)
    } else if v == 2 {
        Some(Opcode::ArpReply)
    } else if v == 3 {
        Some(Opcode::RarpRequest)
    } else if v == 4 {
        Some(Opcode::RarpReply)
    } else {
        None
    }
}

/// The fixed 8-byte ARP header.
#[derive(Clone, Copy, Debug, PartialEq, Eq, Structural)]
pub struct Header {
    pub hwtype: HwType,
    pub protype: ProtocolType,
    pub hwsize: u8,
    pub prosize: u8,
    pub opcode: Opcode,
}

/// The header the first `HEADER_SIZE` bytes of `s` decode to. An unknown
/// hardware or protocol type is `Unsupported`; an opcode outside its value
/// set is `Malformed`, since every ARP message must carry a valid one.
pub open spec fn spec_decode(s: Seq<u8>) -> Result<Header, Error> {
    if s.len() < HEADER_SIZE {
        Err(Error::Malformed)
    } else {
        match hwtype_of(be16(s[0], s[1])) {
            None => Err(Error::Unsupported),
            Some(hwtype) => match protype_of(be16(s[2], s[3])) {
                None => Err(Error::Unsupported),
                Some(protype) => match opcode_of(be16(s[6], s[7])) {
                    None => Err(Error::Malformed),
                    Some(opcode) => Ok(
                        Header { hwtype, protype, hwsize: s[4], prosize: s[5], opcode },
                    ),
                },
            },
        }
    }
}

/// The exact `HEADER_SIZE` bytes an ARP header encodes to.
pub open spec fn spec_encode(h: Header) -> Seq<u8> {
    be16_bytes(hwtype_value(h.hwtype)) + be16_bytes(protype_value(h.protype))
        + seq![h.hwsize, h.prosize] + be16_bytes(opcode_value(h.opcode))
}

impl Header {
    /// Decodes one ARP header from the front of `buf` and returns it with
    /// the number of bytes consumed.
    pub fn decode(buf: &[u8]) -> (r: Result<(Header, usize), Error>)
        ensures
            match r {
                Ok((h, n)) => spec_decode(buf@) == Ok::<Header, Error>(h) && n == HEADER_SIZE,
                Err(e) => spec_decode(buf@) == Err::<Header, Error>(e),
            },
    {
        if buf.len() < HEADER_SIZE {
            return Err(Error::Malformed);
        }
        let hwtype = match hwtype_from_u16(read_be16(buf, 0)) {
            Some(hwtype) => hwtype,
            None => {
                return Err(Error::Unsupported);
            },
        };
        let protype = match protype_from_u16(read_be16(buf, 2)) {
            Some(protype) => protype,
            None => {
                return Err(Error::Unsupported);
            },
        };
        let hwsize = buf[4];
        let prosize = buf[5];
        let opcode = match opcode_from_u16(read_be16(buf, 6)) {
            Some(opcode) => opcode,
            None => {
                return Err(Error::Malformed);
            },
        };
        Ok((Header { hwtype, protype, hwsize, prosize, opcode }, HEADER_SIZE))
    }

    /// Encodes the header into `buf` at `off` and returns the number of
    /// bytes written; everything outside that range is left untouched.
    pub fn encode(self, buf: &mut Vec<u8>, off: usize) -> (r: Result<usize, Error>)
        ensures
            final(buf)@.len() == old(buf)@.len(),
            off + HEADER_SIZE <= old(buf)@.len() ==> {
                &&& r == Ok::<usize, Error>(HEADER_SIZE)
                &&& final(buf)@.subrange(off as int, off + HEADER_SIZE) == spec_encode(self)
                &&& forall|j: int|
                    0 <= j < final(buf)@.len() && !(off <= j < off + HEADER_SIZE)
                        ==> final(buf)@[j] == old(buf)@[j]
            },
            off + HEADER_SIZE > old(buf)@.len() ==> r == Err::<usize, Error>(Error::BufferTooSmall)
                && final(buf)@ == old(buf)@,
    {
        if buf.len() < HEADER_SIZE || off > buf.len() - HEADER_SIZE {
            return Err(Error::BufferTooSmall);
        }
        let hwtype_raw: u16 = match self.hwtype {
            HwType::Ethernet => 0x0001,
        };
        let protype_raw: u16 = match self.protype {
            ProtocolType::Ipv4 => 0x0800,
        };
        let opcode_raw: u16 = match self.opcode {
            Opcode::ArpRequest => 1,
            Opcode::ArpReply => 2,
            Opcode::RarpRequest => 3,
            Opcode::RarpReply => 4,
        };
        put_be16(buf, off, hwtype_raw);
        put_be16(buf, off + 2, protype_raw);
        put_u8(buf, off + 4, self.hwsize);
        put_u8(buf, off + 5, self.prosize);
        put_be16(buf, off + 6, opcode_raw);
        proof {
            assert(final(buf)@.subrange(off as int, off + HEADER_SIZE) =~= spec_encode(self));
        }
        Ok(HEADER_SIZE)
    }
}

/// Round trip: every ARP header decodes back from its own encoding.
pub proof fn lemma_round_trip(h: Header)
    ensures
        spec_encode(h).len() == HEADER_SIZE,
        spec_decode(spec_encode(h)) == Ok::<Header, Error>(h),
{
    let s = spec_encode(h);
    lemma_be16_round_trip(hwtype_value(h.hwtype));
    lemma_be16_round_trip(protype_value(h.protype));
    lemma_be16_round_trip(opcode_value(h.opcode));
    assert(be16(s[0], s[1]) == hwtype_value(h.hwtype));
    assert(be16(s[2], s[3]) == protype_value(h.protype));
    assert(be16(s[6], s[7]) == opcode_value(h.opcode));
}

/// The 20-byte IPv4-specific ARP payload: sender and target hardware and
/// protocol addresses.
#[derive(Clone, Copy, Debug, PartialEq)]
pub struct Ipv4Data {
    pub smac: [u8; 6],
    pub sip: u32,
    pub dmac: [u8; 6],
    pub dip: u32,
}

/// The payload the first `IPV4_DATA_SIZE` bytes of `s` decode to.
pub open spec fn spec_data_decode(s: Seq<u8>) -> Result<Ipv4Data, Error> {
    if s.len() < IPV4_DATA_SIZE {
        Err(Error::Malformed)
    } else {
        Ok(
            Ipv4Data {
                smac: mac_from(s, 0),
                sip: be32(s[6], s[7], s[8], s[9]),
                dmac: mac_from(s, 10),
                dip: be32(s[16], s[17], s[18], s[19]),
            },
        )
    }
}

/// The exact `IPV4_DATA_SIZE` bytes an IPv4 ARP payload encodes to.
pub open spec fn spec_data_encode(d: Ipv4Data) -> Seq<u8> {
    d.smac@ + be32_bytes(d.sip) + d.dmac@ + be32_bytes(d.dip)
}

impl Ipv4Data {
    /// Decodes one IPv4 ARP payload from the front of `buf` and returns it
    /// with the number of bytes consumed.
    pub fn decode(buf: &[u8]) -> (r: Result<(Ipv4Data, usize), Error>)
        ensures
            match r {
                Ok((d, n)) => spec_data_decode(buf@) == Ok::<Ipv4Data, Error>(d) && n
                    == IPV4_DATA_SIZE,
                Err(e) => spec_data_decode(buf@) == Err::<Ipv4Data, Error>(e),
            },
    {
        if buf.len() < IPV4_DATA_SIZE {
            return Err(Error::Malformed);
        }
        let smac = read_mac(buf, 0);
        let sip = read_be32(buf, 6);
        let dmac = read_mac(buf, 10);
        let dip = read_be32(buf, 16);
        Ok((Ipv4Data { smac, sip, dmac, dip }, IPV4_DATA_SIZE))
    }

    /// Encodes the payload into `buf` at `off` and returns the number of
    /// bytes written; everything outside that range is left untouched.
    pub fn encode(self, buf: &mut Vec<u8>, off: usize) -> (r: Result<usize, Error>)
        ensures
            final(buf)@.len() == old(buf)@.len(),
            off + IPV4_DATA_SIZE <= old(buf)@.len() ==> {
                &&& r == Ok::<usize, Error>(IPV4_DATA_SIZE)
                &&& final(buf)@.subrange(off as int, off + IPV4_DATA_SIZE) == spec_data_encode(
                    self,
                )
                &&& forall|j: int|
                    0 <= j < final(buf)@.len() && !(off <= j < off + IPV4_DATA_SIZE)
                        ==> final(buf)@[j] == old(buf)@[j]
            },
            off + IPV4_DATA_SIZE > old(buf)@.len() ==> r == Err::<usize, Error>(
                Error::BufferTooSmall,
            ) && final(buf)@ == old(buf)@,
    {
        if buf.len() < IPV4_DATA_SIZE || off > buf.len() - IPV4_DATA_SIZE {
            return Err(Error::BufferTooSmall);
        }
        put_mac(buf, off, &self.smac);
        put_be32(buf, off + 6, self.sip);
        put_mac(buf, off + 10, &self.dmac);
        put_be32(buf, off + 16, self.dip);
        proof {
            assert(final(buf)@.subrange(off as int, off + IPV4_DATA_SIZE) =~= spec_data_encode(
                self,
            ));
        }
        Ok(IPV4_DATA_SIZE)
    }
}

/// Round trip: every IPv4 ARP payload decodes back from its own encoding.
pub proof fn lemma_data_round_trip(d: Ipv4Data)
    ensures
        spec_data_encode(d).len() == IPV4_DATA_SIZE,
        spec_data_decode(spec_data_encode(d)) == Ok::<Ipv4Data, Error>(d),
{
    broadcast use vstd::array::group_array_axioms;

    let s = spec_data_encode(d);
    lemma_be32_round_trip(d.sip);
    lemma_be32_round_trip(d.dip);
    assert(be32(s[6], s[7], s[8], s[9]) == d.sip);
    assert(be32(s[16], s[17], s[18], s[19]) == d.dip);
    lemma_mac_from_view(s, 0);
    lemma_mac_from_view(s, 10);
    assert(mac_from(s, 0)@ =~= d.smac@);
    assert(mac_from(s, 10)@ =~= d.dmac@);
    assert(mac_from(s, 0) == d.smac);
    assert(mac_from(s, 10) == d.dmac);
}

/// One translation: a (hardware type, protocol address) key mapped to a
/// hardware address.
#[derive(Clone, Copy, Debug, PartialEq)]
pub struct CacheEntry {
    pub hwtype: HwType,
    pub ip: u32,
    pub mac: [u8; 6],
}

/// Whether an entry carries the given key.
pub open spec fn entry_has_key(e: CacheEntry, hwtype: HwType, ip: u32) -> bool {
    e.hwtype == hwtype && e.ip == ip
}

/// The first index at or after `i` whose entry carries the key.
pub open spec fn find_key_from(
    s: Seq<Option<CacheEntry>>,
    hwtype: HwType,
    ip: u32,
    i: int,
) -> Option<int>
    recommends
        0 <= i <= s.len(),
    decreases s.len() - i,
{
    if i < 0 || i >= s.len() {
        None
    } else {
        match s[i] {
            Some(e) => if entry_has_key(e, hwtype, ip) {
                Some(i)
            } else {
                find_key_from(s, hwtype, ip, i + 1)
            },
            None => find_key_from(s, hwtype, ip, i + 1),
        }
    }
}

/// The first index holding an entry with the key, if any.
pub open spec fn find_key(s: Seq<Option<CacheEntry>>, hwtype: HwType, ip: u32) -> Option<int> {
    find_key_from(s, hwtype, ip, 0)
}

/// The first free index at or after `i`.
pub open spec fn find_free_from(s: Seq<Option<CacheEntry>>, i: int) -> Option<int>
    recommends
        0 <= i <= s.len(),
    decreases s.len() - i,
{
    if i < 0 || i >= s.len() {
        None
    } else if s[i] is None {
        Some(i)
    } else {
        find_free_from(s, i + 1)
    }
}

/// The first free index, if any.
pub open spec fn find_free(s: Seq<Option<CacheEntry>>) -> Option<int> {
    find_free_from(s, 0)
}

/// The hardware address of the first entry at or after `i` whose protocol
/// address is `ip`.
pub open spec fn lookup_from(s: Seq<Option<CacheEntry>>, ip: u32, i: int) -> Option<[u8; 6]>
    recommends
        0 <= i <= s.len(),
    decreases s.len() - i,
{
    if i < 0 || i >= s.len() {
        None
    } else {
        match s[i] {
            Some(e) => if e.ip == ip {
                Some(e.mac)
            } else {
                lookup_from(s, ip, i + 1)
            },
            None => lookup_from(s, ip, i + 1),
        }
    }
}

/// What `ArpCache::lookup` returns: the hardware address of the first
/// entry whose protocol address is `ip`.
pub open spec fn spec_lookup(s: Seq<Option<CacheEntry>>, ip: u32) -> Option<[u8; 6]> {
    lookup_from(s, ip, 0)
}

/// At most one entry per (hardware type, protocol address) key.
pub open spec fn cache_wf(s: Seq<Option<CacheEntry>>) -> bool {
    forall|i: int, j: int|
        0 <= i < j < s.len() && s[i] is Some && s[j] is Some ==> !entry_has_key(
            s[j]->Some_0,
            s[i]->Some_0.hwtype,
            s[i]->Some_0.ip,
        )
}

/// Whether an upsert of this key would be rejected: the key is absent and
/// no slot is free.
pub open spec fn upsert_rejected(s: Seq<Option<CacheEntry>>, hwtype: HwType, ip: u32) -> bool {
    find_key(s, hwtype, ip) is None && find_free(s) is None
}

/// What `ArpCache::upsert` leaves in the table: the entry overwritten in
/// place when the key is present, inserted into the first free slot when
/// not, and the table unchanged when it is full.
pub open spec fn spec_upsert(
    s: Seq<Option<CacheEntry>>,
    hwtype: HwType,
    ip: u32,
    mac: [u8; 6],
) -> Seq<Option<CacheEntry>> {
    let e = CacheEntry { hwtype, ip, mac };
    match find_key(s, hwtype, ip) {
        Some(i) => s.update(i, Some(e)),
        None => match find_free(s) {
            Some(j) => s.update(j, Some(e)),
            None => s,
        },
    }
}

/// Everything strictly before the index `find_key_from` returns misses the
/// key; the returned index hits it; `None` means nothing from `i` on hits.
proof fn lemma_find_key_from_props(s: Seq<Option<CacheEntry>>, hwtype: HwType, ip: u32, i: int)
    requires
        0 <= i <= s.len(),
    ensures
        match find_key_from(s, hwtype, ip, i) {
            Some(k) => i <= k < s.len() && s[k] is Some && entry_has_key(s[k]->Some_0, hwtype, ip)
                && forall|j: int|
                i <= j < k ==> !(s[j] is Some && entry_has_key(s[j]->Some_0, hwtype, ip)),
            None => forall|j: int|
                i <= j < s.len() ==> !(s[j] is Some && entry_has_key(s[j]->Some_0, hwtype, ip)),
        },
    decreases s.len() - i,
{
    if i < s.len() {
        lemma_find_key_from_props(s, hwtype, ip, i + 1);
    }
}

/// The same bookkeeping for `find_free_from`.
proof fn lemma_find_free_from_props(s: Seq<Option<CacheEntry>>, i: int)
    requires
        0 <= i <= s.len(),
    ensures
        match find_free_from(s, i) {
            Some(k) => i <= k < s.len() && s[k] is None && forall|j: int|
                i <= j < k ==> s[j] is Some,
            None => forall|j: int| i <= j < s.len() ==> s[j] is Some,
        },
    decreases s.len() - i,
{
    if i < s.len() {
        lemma_find_free_from_props(s, i + 1);
    }
}

/// If every entry before `k` misses `ip` and the entry at `k` carries it,
/// the lookup from `i` returns the entry's hardware address.
proof fn lemma_lookup_hits_first_match(s: Seq<Option<CacheEntry>>, ip: u32, i: int, k: int)
    requires
        0 <= i <= k < s.len(),
        s[k] is Some,
        s[k]->Some_0.ip == ip,
        forall|j: int| i <= j < k ==> !(s[j] is Some && s[j]->Some_0.ip == ip),
    ensures
        lookup_from(s, ip, i) == Some(s[k]->Some_0.mac),
    decreases k - i,
{
    if i < k {
        lemma_lookup_hits_first_match(s, ip, i + 1, k);
    }
}

/// The number of populated slots.
pub open spec fn count_populated(s: Seq<Option<CacheEntry>>) -> int
    decreases s.len(),
{
    if s.len() == 0 {
        0
    } else {
        count_populated(s.drop_last()) + if s.last() is Some {
            1int
        } else {
            0int
        }
    }
}

/// A table with fewer populated slots than capacity has a free slot, so an
/// insertion of a new distinct key succeeds.
pub proof fn lemma_not_full_has_free(s: Seq<Option<CacheEntry>>)
    requires
        count_populated(s) < s.len(),
    ensures
        find_free(s) is Some,
    decreases s.len(),
{
    lemma_find_free_from_props(s, 0);
    if find_free(s) is None {
        lemma_all_populated_count(s);
    }
}

/// A table whose every slot is populated has count equal to its length.
proof fn lemma_all_populated_count(s: Seq<Option<CacheEntry>>)
    requires
        forall|j: int| 0 <= j < s.len() ==> s[j] is Some,
    ensures
        count_populated(s) == s.len(),
    decreases s.len(),
{
    if s.len() > 0 {
        lemma_all_populated_count(s.drop_last());
    }
}

/// Overwriting a populated slot keeps the populated count; filling a free
/// slot raises it by one. So an update to an existing key consumes no new
/// slot, and a fresh insertion consumes exactly one.
pub proof fn lemma_count_after_update(s: Seq<Option<CacheEntry>>, k: int, e: CacheEntry)
    requires
        0 <= k < s.len(),
    ensures
        s[k] is Some ==> count_populated(s.update(k, Some(e))) == count_populated(s),
        s[k] is None ==> count_populated(s.update(k, Some(e))) == count_populated(s) + 1,
    decreases s.len(),
{
    let t = s.update(k, Some(e));
    if k == s.len() - 1 {
        assert(t.drop_last() =~= s.drop_last());
    } else {
        assert(t.drop_last() =~= s.drop_last().update(k, Some(e)));
        lemma_count_after_update(s.drop_last(), k, e);
    }
}

/// A full table rejects a new distinct key and stays unchanged.
pub proof fn lemma_full_upsert_rejected(s: Seq<Option<CacheEntry>>, hwtype: HwType, ip: u32, mac: [u8; 6])
    requires
        count_populated(s) == s.len(),
        find_key(s, hwtype, ip) is None,
    ensures
        find_free(s) is None,
        spec_upsert(s, hwtype, ip, mac) == s,
{
    lemma_find_free_from_props(s, 0);
    match find_free(s) {
        Some(k) => lemma_count_distinguishes(s, k),
        None => {},
    }
}

/// A table with a free slot has fewer populated slots than capacity.
proof fn lemma_count_distinguishes(s: Seq<Option<CacheEntry>>, k: int)
    requires
        0 <= k < s.len(),
        s[k] is None,
    ensures
        count_populated(s) < s.len(),
    decreases s.len(),
{
    lemma_count_le_len(s.drop_last());
    if k < s.len() - 1 {
        lemma_count_distinguishes(s.drop_last(), k);
    }
}

proof fn lemma_count_le_len(s: Seq<Option<CacheEntry>>)
    ensures
        count_populated(s) <= s.len(),
    decreases s.len(),
{
    if s.len() > 0 {
        lemma_count_le_len(s.drop_last());
    }
}

/// Every hardware type equals every other: the enumeration has a single
/// variant, so a lookup keyed on the protocol address alone agrees with
/// the (hardware type, protocol address) key.
proof fn lemma_hwtype_single(a: HwType, b: HwType)
    ensures
        a == b,
{
}

/// After an upsert that was not rejected, looking the protocol address up
/// returns the hardware address just written.
pub proof fn lemma_lookup_after_upsert(
    s: Seq<Option<CacheEntry>>,
    hwtype: HwType,
    ip: u32,
    mac: [u8; 6],
)
    requires
        cache_wf(s),
        find_key(s, hwtype, ip) is Some || find_free(s) is Some,
    ensures
        spec_lookup(spec_upsert(s, hwtype, ip, mac), ip) == Some(mac),
{
    let e = CacheEntry { hwtype, ip, mac };
    lemma_find_key_from_props(s, hwtype, ip, 0);
    match find_key(s, hwtype, ip) {
        Some(k) => {
            let t = s.update(k, Some(e));
            assert forall|j: int| 0 <= j < k implies !(t[j] is Some && t[j]->Some_0.ip == ip) by {
                if t[j] is Some {
                    lemma_hwtype_single(t[j]->Some_0.hwtype, hwtype);
                }
            }
            lemma_lookup_hits_first_match(t, ip, 0, k);
        },
        None => {
            let k = find_free(s)->Some_0;
            lemma_find_free_from_props(s, 0);
            let t = s.update(k, Some(e));
            assert forall|j: int| 0 <= j < k implies !(t[j] is Some && t[j]->Some_0.ip == ip) by {
                if t[j] is Some {
                    lemma_hwtype_single(t[j]->Some_0.hwtype, hwtype);
                }
            }
            lemma_lookup_hits_first_match(t, ip, 0, k);
        },
    }
}

/// The fixed-capacity ARP translation cache: a linear-scan table, chosen
/// over a hash map on purpose — the table is small, and the scan is cheap
/// and cache-friendly. Entries are never evicted; a full table rejects new
/// distinct keys and reports it.
pub struct ArpCache {
    entries: Vec<Option<CacheEntry>>,
}

impl View for ArpCache {
    type V = Seq<Option<CacheEntry>>;

    closed spec fn view(&self) -> Seq<Option<CacheEntry>> {
        self.entries@
    }
}

impl ArpCache {
    /// The uniqueness invariant every constructor establishes and every
    /// method preserves.
    pub open spec fn wf(&self) -> bool {
        cache_wf(self@)
    }

    /// An empty cache with `capacity` slots.
    pub fn new(capacity: usize) -> (c: ArpCache)
        ensures
            c.wf(),
            c@.len() == capacity,
            forall|j: int| 0 <= j < capacity ==> c@[j] is None,
    {
        let mut entries: Vec<Option<CacheEntry>> = Vec::new();
        let mut i: usize = 0;
        while i < capacity
            invariant
                i <= capacity,
                entries@.len() == i,
                forall|j: int| 0 <= j < i ==> entries@[j] is None,
            decreases capacity - i,
        {
            entries.push(None);
            i = i + 1;
        }
        ArpCache { entries }
    }

    /// Linear scan for the first entry whose protocol address is `ip`.
    pub fn lookup(&self, ip: u32) -> (r: Option<[u8; 6]>)
        ensures
            r == spec_lookup(self@, ip),
    {
        let n = self.entries.len();
        let mut i: usize = 0;
        while i < n
            invariant
                i <= n,
                n == self@.len(),
                spec_lookup(self@, ip) == lookup_from(self@, ip, i as int),
            decreases n - i,
        {
            match self.entries[i] {
                Some(entry) => {
                    if entry.ip == ip {
                        return Some(entry.mac);
                    }
                },
                None => {},
            }
            i = i + 1;
        }
        None
    }

    /// Overwrites the entry with the same (hardware type, protocol
    /// address) key, or inserts into the first free slot; a full table
    /// rejects a new distinct key with `CacheFull` and keeps every entry.
    pub fn upsert(&mut self, hwtype: HwType, ip: u32, mac: [u8; 6]) -> (r: Result<(), Error>)
        requires
            old(self).wf(),
        ensures
            final(self).wf(),
            final(self)@ == spec_upsert(old(self)@, hwtype, ip, mac),
            r == if find_key(old(self)@, hwtype, ip) is None && find_free(old(self)@) is None {
                Err::<(), Error>(Error::CacheFull)
            } else {
                Ok::<(), Error>(())
            },
    {
        let ghost s = self@;
        let e = CacheEntry { hwtype, ip, mac };
        let n = self.entries.len();
        let mut i: usize = 0;
        while i < n
            invariant
                i <= n,
                n == self@.len(),
                self@ == s,
                s == old(self)@,
                cache_wf(s),
                e == (CacheEntry { hwtype, ip, mac }),
                find_key(s, hwtype, ip) == find_key_from(s, hwtype, ip, i as int),
            decreases n - i,
        {
            let hit = match self.entries[i] {
                Some(entry) => entry.hwtype == hwtype && entry.ip == ip,
                None => false,
            };
            if hit {
                self.entries[i] = Some(e);
                proof {
                    lemma_upsert_preserves_wf(s, hwtype, ip, mac);
                }
                return Ok(());
            }
            i = i + 1;
        }
        let mut j: usize = 0;
        while j < n
            invariant
                j <= n,
                n == self@.len(),
                self@ == s,
                s == old(self)@,
                cache_wf(s),
                e == (CacheEntry { hwtype, ip, mac }),
                find_key(s, hwtype, ip) is None,
                find_free(s) == find_free_from(s, j as int),
            decreases n - j,
        {
            let free = match self.entries[j] {
                Some(_) => false,
                None => true,
            };
            if free {
                self.entries[j] = Some(e);
                proof {
                    lemma_upsert_preserves_wf(s, hwtype, ip, mac);
                }
                return Ok(());
            }
            j = j + 1;
        }
        Err(Error::CacheFull)
    }
}

/// The upsert keeps the uniqueness invariant.
proof fn lemma_upsert_preserves_wf(s: Seq<Option<CacheEntry>>, hwtype: HwType, ip: u32, mac: [u8; 6])
    requires
        cache_wf(s),
    ensures
        cache_wf(spec_upsert(s, hwtype, ip, mac)),
{
    lemma_find_key_from_props(s, hwtype, ip, 0);
    lemma_find_free_from_props(s, 0);
    let t = spec_upsert(s, hwtype, ip, mac);
    assert forall|i: int, j: int|
        0 <= i < j < t.len() && t[i] is Some && t[j] is Some implies !entry_has_key(
        t[j]->Some_0,
        t[i]->Some_0.hwtype,
        t[i]->Some_0.ip,
    ) by {
        lemma_hwtype_single(t[i]->Some_0.hwtype, t[j]->Some_0.hwtype);
    }
}

} // verus!
