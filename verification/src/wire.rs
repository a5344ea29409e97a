//! Header views over raw frames, read through `pnet`'s packet types.
//!
//! Each reader hands the fields it extracts back as plain bytes and
//! integers; the contracts state, byte by byte, what `pnet` reads.

use pnet::packet::ethernet::EthernetPacket;
use pnet::packet::ipv4::Ipv4Packet;
use pnet::packet::ipv6::Ipv6Packet;
use pnet::packet::tcp::TcpPacket;
use pnet::packet::udp::UdpPacket;
use pnet::packet::Packet;
use vstd::prelude::*;

verus! {

/// Big-endian 16-bit value of the two bytes of `b` starting at `i`.
pub open spec fn be16(b: Seq<u8>, i: int) -> u16 {
    (b[i] as int * 256 + b[i + 1] as int) as u16
}

/// Big-endian 32-bit value of the four bytes of `b` starting at `i`.
pub open spec fn be32(b: Seq<u8>, i: int) -> u32 {
    (b[i] as int * 16777216 + b[i + 1] as int * 65536 + b[i + 2] as int * 256
        + b[i + 3] as int) as u32
}

/// Bytes `start..` of `b`, cut at `start + len` when the packet is longer,
/// and empty when `b` ends at or before `start`.
pub open spec fn bounded_payload(b: Seq<u8>, start: int, len: int) -> Seq<u8> {
    if b.len() <= start {
        Seq::empty()
    } else if start + len < b.len() {
        b.subrange(start, start + len)
    } else {
        b.subrange(start, b.len() as int)
    }
}

/// Where an IPv4 payload starts: after the header that the IHL field
/// announces, and never inside the fixed twenty header bytes.
pub open spec fn ipv4_payload_start(b: Seq<u8>) -> int {
    let ihl = (b[0] % 16) as int * 4;
    if ihl > 20 {
        ihl
    } else {
        20
    }
}

/// The payload of an IPv4 packet (at least twenty bytes long): total length
/// minus header length bytes after the header, clipped to what is there.
pub open spec fn ipv4_payload(b: Seq<u8>) -> Seq<u8> {
    let ihl = (b[0] % 16) as int * 4;
    let total = be16(b, 2) as int;
    let len = if total > ihl {
        total - ihl
    } else {
        0
    };
    bounded_payload(b, ipv4_payload_start(b), len)
}

/// The payload of an IPv6 packet (at least forty bytes long): the number of
/// bytes that the payload-length field announces, clipped to what is there.
pub open spec fn ipv6_payload(b: Seq<u8>) -> Seq<u8> {
    bounded_payload(b, 40, be16(b, 4) as int)
}

/// The Ethernet II header fields of a frame.
pub struct EthernetHeader {
    pub destination: Vec<u8>,
    pub source: Vec<u8>,
    pub ethertype: u16,
    pub payload: Vec<u8>,
}

/// The IPv4 header fields that the packet log uses.
pub struct Ipv4Header {
    pub source: [u8; 4],
    pub destination: [u8; 4],
    pub protocol: u8,
    pub payload: Vec<u8>,
}

/// The text that std's `Display` gives the IPv6 address with these sixteen
/// bytes (RFC 5952 form).
pub uninterp spec fn ipv6_text(octets: Seq<u8>) -> Seq<char>;

/// The IPv6 header fields that the packet log uses, the addresses already
/// in text form.
pub struct Ipv6Header {
    pub source: String,
    pub destination: String,
    pub next_header: u8,
    pub payload: Vec<u8>,
}

/// The TCP header fields that the packet log uses.
pub struct TcpHeader {
    pub source: u16,
    pub destination: u16,
    pub sequence: u32,
    pub acknowledgement: u32,
    pub flags: u8,
}

/// The UDP header fields that the packet log uses.
pub struct UdpHeader {
    pub source: u16,
    pub destination: u16,
    pub length: u16,
}

/// Reads an Ethernet II header.
///
/// Trusted: calls `pnet`'s `EthernetPacket::new` and its getters. `new`
/// accepts any buffer of at least fourteen bytes; the destination is bytes
/// 0..6, the source bytes 6..12, the EtherType the big-endian value of bytes
/// 12..14, and the payload everything after byte 14.
#[verifier::external_body]
pub(crate) fn read_ethernet(frame: &[u8]) -> (r: Option<EthernetHeader>)
    ensures
        r is Some <==> frame@.len() >= 14,
        r matches Some(h) ==> {
            &&& h.destination@ == frame@.subrange(0, 6)
            &&& h.source@ == frame@.subrange(6, 12)
            &&& h.ethertype == be16(frame@, 12)
            &&& h.payload@ == frame@.subrange(14, frame@.len() as int)
        },
{
    match EthernetPacket::new(frame) {
        Some(p) => Some(EthernetHeader {
            destination: p.get_destination().octets().to_vec(),
            source: p.get_source().octets().to_vec(),
            ethertype: p.get_ethertype().0,
            payload: p.payload().to_vec(),
        }),
        None => None,
    }
}

/// Reads an IPv4 header.
///
/// Trusted: calls `pnet`'s `Ipv4Packet::new` and its getters. `new` accepts
/// any buffer of at least twenty bytes; the protocol is byte 9, the source
/// bytes 12..16, the destination bytes 16..20, and the payload is cut out as
/// `ipv4_payload` says (pnet's `ipv4_options_length` and
/// `ipv4_payload_length`, clipped by the generated `payload` accessor).
#[verifier::external_body]
pub(crate) fn read_ipv4(packet: &[u8]) -> (r: Option<Ipv4Header>)
    ensures
        r is Some <==> packet@.len() >= 20,
        r matches Some(h) ==> {
            &&& h.source@ == packet@.subrange(12, 16)
            &&& h.destination@ == packet@.subrange(16, 20)
            &&& h.protocol == packet@[9]
            &&& h.payload@ == ipv4_payload(packet@)
        },
{
    match Ipv4Packet::new(packet) {
        Some(p) => Some(Ipv4Header {
            source: p.get_source().octets(),
            destination: p.get_destination().octets(),
            protocol: p.get_next_level_protocol().0,
            payload: p.payload().to_vec(),
        }),
        None => None,
    }
}

/// Reads an IPv6 header.
///
/// Trusted: calls `pnet`'s `Ipv6Packet::new` and its getters. `new` accepts
/// any buffer of at least forty bytes; the next header is byte 6, the source
/// address bytes 8..24, the destination address bytes 24..40, and the
/// payload is as many bytes after byte 40 as the payload-length field
/// (bytes 4..6) announces, clipped to the buffer. The addresses are turned
/// into text by std's `Display` for IPv6 addresses; of that text nothing is
/// claimed beyond that it depends on the sixteen address bytes alone.
#[verifier::external_body]
pub(crate) fn read_ipv6(packet: &[u8]) -> (r: Option<Ipv6Header>)
    ensures
        r is Some <==> packet@.len() >= 40,
        r matches Some(h) ==> {
            &&& h.source@ == ipv6_text(packet@.subrange(8, 24))
            &&& h.destination@ == ipv6_text(packet@.subrange(24, 40))
            &&& h.next_header == packet@[6]
            &&& h.payload@ == ipv6_payload(packet@)
        },
{
    match Ipv6Packet::new(packet) {
        Some(p) => Some(Ipv6Header {
            source: p.get_source().to_string(),
            destination: p.get_destination().to_string(),
            next_header: p.get_next_header().0,
            payload: p.payload().to_vec(),
        }),
        None => None,
    }
}

/// Reads a TCP header.
///
/// Trusted: calls `pnet`'s `TcpPacket::new` and its getters. `new` accepts
/// any buffer of at least twenty bytes; ports, sequence and acknowledgement
/// numbers are big-endian at bytes 0, 2, 4 and 8, and the flags are byte 13.
#[verifier::external_body]
pub(crate) fn read_tcp(segment: &[u8]) -> (r: Option<TcpHeader>)
    ensures
        r is Some <==> segment@.len() >= 20,
        r matches Some(h) ==> {
            &&& h.source == be16(segment@, 0)
            &&& h.destination == be16(segment@, 2)
            &&& h.sequence == be32(segment@, 4)
            &&& h.acknowledgement == be32(segment@, 8)
            &&& h.flags == segment@[13]
        },
{
    match TcpPacket::new(segment) {
        Some(p) => Some(TcpHeader {
            source: p.get_source(),
            destination: p.get_destination(),
            sequence: p.get_sequence(),
            acknowledgement: p.get_acknowledgement(),
            flags: p.get_flags(),
        }),
        None => None,
    }
}

/// Reads a UDP header.
///
/// Trusted: calls `pnet`'s `UdpPacket::new` and its getters. `new` accepts
/// any buffer of at least eight bytes; source port, destination port and
/// length are big-endian at bytes 0, 2 and 4.
#[verifier::external_body]
pub(crate) fn read_udp(datagram: &[u8]) -> (r: Option<UdpHeader>)
    ensures
        r is Some <==> datagram@.len() >= 8,
        r matches Some(h) ==> {
            &&& h.source == be16(datagram@, 0)
            &&& h.destination == be16(datagram@, 2)
            &&& h.length == be16(datagram@, 4)
        },
{
    match UdpPacket::new(datagram) {
        Some(p) => Some(UdpHeader {
            source: p.get_source(),
            destination: p.get_destination(),
            length: p.get_length(),
        }),
        None => None,
    }
}

} // verus!
