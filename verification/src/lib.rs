//! A minimal userspace network stack: Ethernet demultiplexing, ARP
//! resolution, IPv4 reception and ICMP echo handling, together with a
//! fixed-capacity packet buffer pool. The protocol pipeline is pure: it
//! turns one inbound frame into at most one outbound frame, so every step
//! carries a contract over the frame bytes.

use vstd::prelude::*;

pub mod arp;
pub mod eth;
pub mod icmpv4;
pub mod ipv4;
pub mod packet_pool;
pub mod util;
pub mod wire;

verus! {

/// The error taxonomy shared by every component of the stack.
#[derive(Clone, Copy, Debug, PartialEq, Eq, Structural)]
pub enum Error {
    /// Fewer bytes were available than the fixed header size requires.
    Malformed,
    /// An enumerated field held a value outside its known set.
    Unsupported,
    /// An encode target cannot hold the fixed header size.
    BufferTooSmall,
    /// A buffer write would run past the slot capacity.
    OutOfRange,
    /// A read destination is smaller than the full slot capacity.
    Truncated,
    /// The ARP cache is at capacity and a new distinct key was rejected.
    CacheFull,
    /// No free buffer slot is available.
    PoolExhausted,
    /// A pool slot was released from a state that no live handle permits.
    PoolInvariantViolated,
}

/// The capacity of the ARP translation cache.
pub const ARP_TABLE_ENTRIES: usize = 32;

/// The zero padding appended to every synthesized ARP frame, bringing it
/// up to the minimum Ethernet frame size.
pub const ARP_TRAILER_LEN: usize = 18;

/// The stack's own identity: its hardware address and its IPv4 address,
/// fixed at construction. It is both the filter for "is this frame for me"
/// and the source of the sender fields of every synthesized reply.
#[derive(Clone, Copy, Debug, PartialEq)]
pub struct NettyDevice {
    pub hwaddr: [u8; 6],
    pub ipaddr: u32,
}

/// What one frame produced: the reply to write back, if any, and whether
/// the ARP cache rejected a new distinct key for want of a free slot — a
/// diagnostic for the caller to log, never a processing failure.
#[derive(Debug, PartialEq, Eq)]
pub struct FrameOutcome {
    pub reply: Option<Vec<u8>>,
    pub cache_full: bool,
}

/// An outbound ARP frame: Ethernet header addressed with the payload's
/// target hardware address, the ARP header, the payload, and the fixed
/// zero trailer.
pub open spec fn spec_arp_frame(dev: NettyDevice, hdr: arp::Header, data: arp::Ipv4Data) -> Seq<
    u8,
> {
    eth::spec_encode(
        eth::Header { dmac: data.dmac, smac: dev.hwaddr, ethertype: eth::Ethertype::ARP },
    ) + arp::spec_encode(hdr) + arp::spec_data_encode(data) + Seq::new(
        ARP_TRAILER_LEN as nat,
        |i: int| 0u8,
    )
}

/// The reply to an ARP request carried in `data`: sender and target roles
/// swapped, the stack's own addresses as the sender fields.
pub open spec fn spec_arp_reply_frame(dev: NettyDevice, data: arp::Ipv4Data) -> Seq<u8> {
    spec_arp_frame(
        dev,
        arp::Header {
            hwtype: arp::HwType::Ethernet,
            protype: arp::ProtocolType::Ipv4,
            hwsize: 6,
            prosize: 4,
            opcode: arp::Opcode::ArpReply,
        },
        arp::Ipv4Data { smac: dev.hwaddr, sip: dev.ipaddr, dmac: data.smac, dip: data.sip },
    )
}

/// The echo reply to a request with sub-header `echo` and opaque
/// `payload`, sent back to hardware address `dmac`. The ICMP checksum is
/// computed over the ICMP header, the echo sub-header and the payload with
/// the checksum field zeroed; the IPv4 checksum of the reply is left zero
/// on purpose, a documented open point of this stack.
pub open spec fn spec_echo_reply_frame(
    dev: NettyDevice,
    dmac: [u8; 6],
    ip_hdr: ipv4::Header,
    echo: icmpv4::EchoHeader,
    payload: Seq<u8>,
) -> Seq<u8> {
    let icmp_zero = icmpv4::Header { msg_type: icmpv4::MsgType::EchoReply, code: 0, checksum: 0 };
    let csum = util::spec_checksum(
        icmpv4::spec_encode(icmp_zero) + icmpv4::spec_echo_encode(echo) + payload,
    );
    let icmp = icmpv4::Header { msg_type: icmpv4::MsgType::EchoReply, code: 0, checksum: csum };
    let reply_ip = ipv4::Header {
        datagram_len: (
        (ipv4::HEADER_SIZE + icmpv4::HEADER_SIZE + icmpv4::ECHO_HEADER_SIZE + payload.len())
            % 0x10000) as u16,
        checksum: 0,
        src_addr: dev.ipaddr,
        dst_addr: ip_hdr.src_addr,
        ..ip_hdr
    };
    eth::spec_encode(
        eth::Header { dmac, smac: dev.hwaddr, ethertype: eth::Ethertype::IPv4 },
    ) + ipv4::spec_encode(reply_ip) + icmpv4::spec_encode(icmp) + icmpv4::spec_echo_encode(echo)
        + payload
}

/// What ICMP handling does with the payload of an IPv4 datagram already
/// known to be addressed to the stack: an echo request whose peer resolves
/// in the cache yields exactly one reply frame; a resolution miss or any
/// other message type yields none; a short or unknown header is an error.
pub open spec fn spec_icmp_result(
    cache: Seq<Option<arp::CacheEntry>>,
    dev: NettyDevice,
    ip_hdr: ipv4::Header,
    payload: Seq<u8>,
) -> Result<Option<Seq<u8>>, Error> {
    match icmpv4::spec_decode(payload) {
        Err(e) => Err(e),
        Ok(icmp_hdr) => if icmp_hdr.msg_type != icmpv4::MsgType::EchoRequest {
            Ok(None)
        } else {
            match icmpv4::spec_echo_decode(payload.skip(icmpv4::HEADER_SIZE as int)) {
                Err(e) => Err(e),
                Ok(echo) => match arp::spec_lookup(cache, ip_hdr.src_addr) {
                    None => Ok(None),
                    Some(dmac) => Ok(
                        Some(
                            spec_echo_reply_frame(
                                dev,
                                dmac,
                                ip_hdr,
                                echo,
                                payload.skip((icmpv4::HEADER_SIZE + icmpv4::ECHO_HEADER_SIZE) as int),
                            ),
                        ),
                    ),
                },
            }
        },
    }
}

/// What IPv4 handling does with the bytes after the Ethernet header: a
/// datagram not addressed to the stack, or carrying anything but ICMP, is
/// dropped after decoding.
pub open spec fn spec_ipv4_result(
    cache: Seq<Option<arp::CacheEntry>>,
    dev: NettyDevice,
    packet: Seq<u8>,
) -> Result<Option<Seq<u8>>, Error> {
    match ipv4::spec_decode(packet) {
        Err(e) => Err(e),
        Ok(hdr) => if hdr.dst_addr != dev.ipaddr {
            Ok(None)
        } else if hdr.proto != ipv4::PROTO_ICMPV4 {
            Ok(None)
        } else {
            spec_icmp_result(cache, dev, hdr, packet.skip(ipv4::HEADER_SIZE as int))
        },
    }
}

/// What ARP handling does with the bytes after the Ethernet header: the
/// sender's translation is always recorded; an `ArpRequest` additionally
/// yields exactly one reply frame. The triple is the new cache contents,
/// the outcome, and whether a full table rejected the recording.
pub open spec fn spec_arp_result(
    cache: Seq<Option<arp::CacheEntry>>,
    dev: NettyDevice,
    packet: Seq<u8>,
) -> (Seq<Option<arp::CacheEntry>>, Result<Option<Seq<u8>>, Error>, bool) {
    match arp::spec_decode(packet) {
        Err(e) => (cache, Err(e), false),
        Ok(hdr) => match arp::spec_data_decode(packet.skip(arp::HEADER_SIZE as int)) {
            Err(e) => (cache, Err(e), false),
            Ok(data) => {
                let cache2 = arp::spec_upsert(cache, hdr.hwtype, data.sip, data.smac);
                let rejected = arp::upsert_rejected(cache, hdr.hwtype, data.sip);
                if hdr.opcode == arp::Opcode::ArpRequest {
                    (cache2, Ok(Some(spec_arp_reply_frame(dev, data))), rejected)
                } else {
                    (cache2, Ok(None), rejected)
                }
            },
        },
    }
}

/// One step of the dispatch loop: what one inbound frame does to the ARP
/// cache, which outbound frame, if any, it provokes, and whether a full
/// cache rejected a recording along the way.
pub open spec fn spec_handle_frame(
    cache: Seq<Option<arp::CacheEntry>>,
    dev: NettyDevice,
    frame: Seq<u8>,
) -> (Seq<Option<arp::CacheEntry>>, Result<Option<Seq<u8>>, Error>, bool) {
    match eth::spec_decode(frame) {
        Err(e) => (cache, Err(e), false),
        Ok(h) => match h.ethertype {
            eth::Ethertype::ARP => spec_arp_result(cache, dev, frame.skip(eth::HEADER_SIZE as int)),
            eth::Ethertype::IPv4 => (
                cache,
                spec_ipv4_result(cache, dev, frame.skip(eth::HEADER_SIZE as int)),
                false,
            ),
            eth::Ethertype::RARP => (cache, Ok(None), false),
        },
    }
}

/// The protocol dispatch engine: the ARP cache it owns and the identity it
/// answers for. The transport sits outside; the engine maps each inbound
/// frame to at most one outbound frame.
pub struct NettyStack {
    arp_translation_table: arp::ArpCache,
    netdev: NettyDevice,
}

impl NettyStack {
    /// The cache contents.
    pub closed spec fn cache(&self) -> Seq<Option<arp::CacheEntry>> {
        self.arp_translation_table@
    }

    /// The stack's identity.
    pub closed spec fn device(&self) -> NettyDevice {
        self.netdev
    }

    /// The cache keeps its uniqueness invariant.
    pub open spec fn wf(&self) -> bool {
        arp::cache_wf(self.cache())
    }

    /// A stack answering for the given identity, with an empty cache.
    pub fn new(hwaddr: [u8; 6], ipaddr: u32) -> (s: NettyStack)
        ensures
            s.wf(),
            s.device() == (NettyDevice { hwaddr, ipaddr }),
            s.cache().len() == ARP_TABLE_ENTRIES,
            forall|i: int| 0 <= i < ARP_TABLE_ENTRIES ==> s.cache()[i] is None,
    {
        NettyStack {
            arp_translation_table: arp::ArpCache::new(ARP_TABLE_ENTRIES),
            netdev: NettyDevice { hwaddr, ipaddr },
        }
    }

    /// Resolves an IPv4 address through the translation cache.
    pub fn do_arp_lookup(&self, ip_addr: u32) -> (r: Option<[u8; 6]>)
        ensures
            r == arp::spec_lookup(self.cache(), ip_addr),
    {
        self.arp_translation_table.lookup(ip_addr)
    }

    /// Builds one outbound ARP frame: Ethernet header, ARP header, IPv4
    /// payload, and the fixed zero trailer.
    pub fn write_arp_packet(&self, hdr: arp::Header, data: arp::Ipv4Data) -> (r: Vec<u8>)
        ensures
            r@ == spec_arp_frame(self.device(), hdr, data),
    {
        broadcast use vstd::array::group_array_axioms;

        let mut buf = wire::zero_vec(
            eth::HEADER_SIZE + arp::HEADER_SIZE + arp::IPV4_DATA_SIZE + ARP_TRAILER_LEN,
        );
        let eth_hdr = eth::Header {
            smac: self.netdev.hwaddr,
            dmac: data.dmac,
            ethertype: eth::Ethertype::ARP,
        };
        let _ = eth_hdr.encode(&mut buf, 0);
        let _ = hdr.encode(&mut buf, eth::HEADER_SIZE);
        let _ = data.encode(&mut buf, eth::HEADER_SIZE + arp::HEADER_SIZE);
        proof {
            assert(buf@ =~= spec_arp_frame(self.device(), hdr, data));
        }
        buf
    }

    /// Handles the payload of an ARP frame: records the sender's
    /// translation (a full cache only loses the recording, never the
    /// frame, and the outcome reports it for the caller to log) and
    /// answers an `ArpRequest` with exactly one reply frame.
    pub fn handle_arp(&mut self, packet: &[u8]) -> (r: Result<FrameOutcome, Error>)
        requires
            old(self).wf(),
        ensures
            final(self).wf(),
            final(self).device() == old(self).device(),
            ({
                let outcome = spec_arp_result(old(self).cache(), old(self).device(), packet@);
                &&& final(self).cache() == outcome.0
                &&& match outcome.1 {
                    Err(e) => r == Err::<FrameOutcome, Error>(e),
                    Ok(None) => r matches Ok(o) && o.reply is None && o.cache_full == outcome.2,
                    Ok(Some(f)) => r matches Ok(o) && o.reply matches Some(v) && v@ == f
                        && o.cache_full == outcome.2,
                }
            }),
    {
        let hdr = match arp::Header::decode(packet) {
            Ok((hdr, _)) => hdr,
            Err(e) => {
                return Err(e);
            },
        };
        if hdr.hwtype == arp::HwType::Ethernet && hdr.protype == arp::ProtocolType::Ipv4 {
            let payload = vstd::slice::slice_subrange(packet, arp::HEADER_SIZE, packet.len());
            proof {
                assert(payload@ =~= packet@.skip(arp::HEADER_SIZE as int));
            }
            let data = match arp::Ipv4Data::decode(payload) {
                Ok((data, _)) => data,
                Err(e) => {
                    return Err(e);
                },
            };
            // A full table is reported in the outcome and logged by the
            // caller; the frame is still fully processed.
            let cache_full = match self.arp_translation_table.upsert(
                hdr.hwtype,
                data.sip,
                data.smac,
            ) {
                Ok(_) => false,
                Err(_) => true,
            };
            if hdr.opcode == arp::Opcode::ArpRequest {
                let reply_hdr = arp::Header {
                    hwtype: arp::HwType::Ethernet,
                    protype: arp::ProtocolType::Ipv4,
                    hwsize: 6,
                    prosize: 4,
                    opcode: arp::Opcode::ArpReply,
                };
                let reply_data = arp::Ipv4Data {
                    smac: self.netdev.hwaddr,
                    sip: self.netdev.ipaddr,
                    dmac: data.smac,
                    dip: data.sip,
                };
                let frame = self.write_arp_packet(reply_hdr, reply_data);
                Ok(FrameOutcome { reply: Some(frame), cache_full })
            } else {
                Ok(FrameOutcome { reply: None, cache_full })
            }
        } else {
            Ok(FrameOutcome { reply: None, cache_full: false })
        }
    }

    /// Handles the payload of an IPv4 frame: only datagrams addressed to
    /// the stack's own address and carrying ICMP go further; everything
    /// else is decoded and dropped.
    pub fn handle_ipv4(&self, packet: &[u8]) -> (r: Result<Option<Vec<u8>>, Error>)
        requires
            self.wf(),
        ensures
            match spec_ipv4_result(self.cache(), self.device(), packet@) {
                Err(e) => r == Err::<Option<Vec<u8>>, Error>(e),
                Ok(None) => r == Ok::<Option<Vec<u8>>, Error>(None),
                Ok(Some(f)) => r matches Ok(Some(v)) && v@ == f,
            },
    {
        let hdr = match ipv4::Header::decode(packet) {
            Ok((hdr, _)) => hdr,
            Err(e) => {
                return Err(e);
            },
        };
        if hdr.dst_addr == self.netdev.ipaddr {
            if hdr.proto == ipv4::PROTO_ICMPV4 {
                let payload = vstd::slice::slice_subrange(packet, ipv4::HEADER_SIZE, packet.len());
                proof {
                    assert(payload@ =~= packet@.skip(ipv4::HEADER_SIZE as int));
                }
                self.handle_icmpv4(hdr, payload)
            } else {
                Ok(None)
            }
        } else {
            Ok(None)
        }
    }

    /// Handles the ICMP payload of a datagram already known to be for the
    /// stack: an echo request becomes an echo reply with the identifier
    /// and sequence number copied over, addressed to the hardware address
    /// the cache resolves for the peer; a resolution miss drops the reply
    /// silently — no ARP request is triggered to resolve the peer, a
    /// deliberate, documented limitation.
    pub fn handle_icmpv4(&self, ip_hdr: ipv4::Header, ip_data: &[u8]) -> (r: Result<
        Option<Vec<u8>>,
        Error,
    >)
        requires
            self.wf(),
            ipv4::header_valid(ip_hdr),
        ensures
            match spec_icmp_result(self.cache(), self.device(), ip_hdr, ip_data@) {
                Err(e) => r == Err::<Option<Vec<u8>>, Error>(e),
                Ok(None) => r == Ok::<Option<Vec<u8>>, Error>(None),
                Ok(Some(f)) => r matches Ok(Some(v)) && v@ == f,
            },
    {
        let icmp_hdr = match icmpv4::Header::decode(ip_data) {
            Ok((icmp_hdr, _)) => icmp_hdr,
            Err(e) => {
                return Err(e);
            },
        };
        if icmp_hdr.msg_type == icmpv4::MsgType::EchoRequest {
            let after_icmp = vstd::slice::slice_subrange(ip_data, icmpv4::HEADER_SIZE, ip_data.len());
            proof {
                assert(after_icmp@ =~= ip_data@.skip(icmpv4::HEADER_SIZE as int));
            }
            let echo_hdr = match icmpv4::EchoHeader::decode(after_icmp) {
                Ok((echo_hdr, _)) => echo_hdr,
                Err(e) => {
                    return Err(e);
                },
            };
            match self.do_arp_lookup(ip_hdr.src_addr) {
                None => Ok(None),
                Some(dmac) => {
                    let payload = vstd::slice::slice_subrange(
                        ip_data,
                        icmpv4::HEADER_SIZE + icmpv4::ECHO_HEADER_SIZE,
                        ip_data.len(),
                    );
                    proof {
                        assert(payload@ =~= ip_data@.skip(
                            (icmpv4::HEADER_SIZE + icmpv4::ECHO_HEADER_SIZE) as int,
                        ));
                    }
                    Ok(Some(self.build_echo_reply(dmac, ip_hdr, echo_hdr, payload)))
                },
            }
        } else {
            Ok(None)
        }
    }

    /// Assembles the echo reply frame: the ICMP section is laid out first
    /// with a zero checksum, the computed checksum is written in, and the
    /// section is appended to the Ethernet and IPv4 headers.
    fn build_echo_reply(
        &self,
        dmac: [u8; 6],
        ip_hdr: ipv4::Header,
        echo_hdr: icmpv4::EchoHeader,
        payload: &[u8],
    ) -> (r: Vec<u8>)
        requires
            ipv4::header_valid(ip_hdr),
        ensures
            r@ == spec_echo_reply_frame(self.device(), dmac, ip_hdr, echo_hdr, payload@),
    {
        broadcast use vstd::array::group_array_axioms;

        let icmp_zero = icmpv4::Header {
            msg_type: icmpv4::MsgType::EchoReply,
            code: 0,
            checksum: 0,
        };
        let mut section = wire::zero_vec(icmpv4::HEADER_SIZE + icmpv4::ECHO_HEADER_SIZE);
        let _ = icmp_zero.encode(&mut section, 0);
        let _ = echo_hdr.encode(&mut section, icmpv4::HEADER_SIZE);
        section.extend_from_slice(payload);
        proof {
            assert(section@ =~= icmpv4::spec_encode(icmp_zero) + icmpv4::spec_echo_encode(echo_hdr)
                + payload@);
        }
        let csum = util::checksum(section.as_slice());
        let icmp_final = icmpv4::Header {
            msg_type: icmpv4::MsgType::EchoReply,
            code: 0,
            checksum: csum,
        };
        let _ = icmp_final.encode(&mut section, 0);
        proof {
            assert(section@ =~= icmpv4::spec_encode(icmp_final) + icmpv4::spec_echo_encode(echo_hdr)
                + payload@);
        }
        let dl_rem = payload.len() % 0x10000;
        let reply_ip = ipv4::Header {
            version: ip_hdr.version,
            internet_header_len: ip_hdr.internet_header_len,
            type_of_service: ip_hdr.type_of_service,
            datagram_len: ((ipv4::HEADER_SIZE + icmpv4::HEADER_SIZE + icmpv4::ECHO_HEADER_SIZE
                + dl_rem) % 0x10000) as u16,
            id: ip_hdr.id,
            control_flags: ip_hdr.control_flags,
            fragment_offset: ip_hdr.fragment_offset,
            time_to_live: ip_hdr.time_to_live,
            proto: ip_hdr.proto,
            checksum: 0,
            src_addr: self.netdev.ipaddr,
            dst_addr: ip_hdr.src_addr,
        };
        proof {
            vstd::arithmetic::div_mod::lemma_add_mod_noop(
                (ipv4::HEADER_SIZE + icmpv4::HEADER_SIZE + icmpv4::ECHO_HEADER_SIZE) as int,
                payload@.len() as int,
                0x10000,
            );
            vstd::arithmetic::div_mod::lemma_small_mod(
                (ipv4::HEADER_SIZE + icmpv4::HEADER_SIZE + icmpv4::ECHO_HEADER_SIZE) as nat,
                0x10000,
            );
        }
        let eth_hdr = eth::Header {
            smac: self.netdev.hwaddr,
            dmac,
            ethertype: eth::Ethertype::IPv4,
        };
        let mut out = wire::zero_vec(eth::HEADER_SIZE + ipv4::HEADER_SIZE);
        let _ = eth_hdr.encode(&mut out, 0);
        let _ = reply_ip.encode(&mut out, eth::HEADER_SIZE);
        out.extend_from_slice(section.as_slice());
        proof {
            assert(out@ =~= spec_echo_reply_frame(
                self.device(),
                dmac,
                ip_hdr,
                echo_hdr,
                payload@,
            ));
        }
        out
    }

    /// One step of the dispatch loop: decodes the Ethernet header, hands
    /// the payload to ARP or IPv4 handling, and returns the reply frame to
    /// write, if any, with the cache-full diagnostic. A decode failure
    /// abandons the frame and leaves the cache untouched; the caller logs
    /// it and reads on.
    pub fn handle_frame(&mut self, frame: &[u8]) -> (r: Result<FrameOutcome, Error>)
        requires
            old(self).wf(),
        ensures
            final(self).wf(),
            final(self).device() == old(self).device(),
            ({
                let outcome = spec_handle_frame(old(self).cache(), old(self).device(), frame@);
                &&& final(self).cache() == outcome.0
                &&& match outcome.1 {
                    Err(e) => r == Err::<FrameOutcome, Error>(e),
                    Ok(None) => r matches Ok(o) && o.reply is None && o.cache_full == outcome.2,
                    Ok(Some(f)) => r matches Ok(o) && o.reply matches Some(v) && v@ == f
                        && o.cache_full == outcome.2,
                }
            }),
    {
        let hdr = match eth::Header::decode(frame) {
            Ok((hdr, _)) => hdr,
            Err(e) => {
                return Err(e);
            },
        };
        let payload = vstd::slice::slice_subrange(frame, eth::HEADER_SIZE, frame.len());
        proof {
            assert(payload@ =~= frame@.skip(eth::HEADER_SIZE as int));
        }
        match hdr.ethertype {
            eth::Ethertype::ARP => self.handle_arp(payload),
            eth::Ethertype::IPv4 => match self.handle_ipv4(payload) {
                Ok(reply) => Ok(FrameOutcome { reply, cache_full: false }),
                Err(e) => Err(e),
            },
            eth::Ethertype::RARP => Ok(FrameOutcome { reply: None, cache_full: false }),
        }
    }
}

} // verus!
