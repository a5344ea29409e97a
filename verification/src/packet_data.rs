//! Decoding of captured Ethernet frames into the fields the appliance logs.

use crate::text::{decimal, hex2, push_char, push_decimal_u8, push_hex2};
use crate::wire::{
    be16, be32, ipv4_payload, ipv4_payload_start, ipv6_payload, ipv6_text, read_ethernet, read_ipv4, read_ipv6, read_tcp,
    read_udp,
};
use vstd::prelude::*;

verus! {

/// EtherType of IPv4.
pub const ETHERTYPE_IPV4: u16 = 0x0800;

/// EtherType of IPv6.
pub const ETHERTYPE_IPV6: u16 = 0x86DD;

/// IP protocol number of TCP.
pub const PROTOCOL_TCP: u8 = 6;

/// IP protocol number of UDP.
pub const PROTOCOL_UDP: u8 = 17;

/// The fields decoded from one captured frame. A field is `None` when the
/// frame does not carry the layer that holds it.
#[derive(Clone, Debug)]
pub struct PacketData {
    pub _raw_data: Vec<u8>,
    // Ethernet
    pub src_mac: Option<String>,
    pub dst_mac: Option<String>,
    pub ethertype: Option<u16>,
    // IP (v4 or v6)
    pub src_ip: Option<String>,
    pub dst_ip: Option<String>,
    pub ip_protocol: Option<u8>,
    // TCP
    pub tcp_src_port: Option<u16>,
    pub tcp_dst_port: Option<u16>,
    pub tcp_sequence: Option<u32>,
    pub tcp_ack: Option<u32>,
    pub tcp_flags: Option<u16>,
    // UDP
    pub udp_src_port: Option<u16>,
    pub udp_dst_port: Option<u16>,
    pub udp_length: Option<u16>,
}

/// The mathematical content of a [`PacketData`]: text fields as character
/// sequences.
pub struct PacketModel {
    pub raw: Seq<u8>,
    pub src_mac: Option<Seq<char>>,
    pub dst_mac: Option<Seq<char>>,
    pub ethertype: Option<u16>,
    pub src_ip: Option<Seq<char>>,
    pub dst_ip: Option<Seq<char>>,
    pub ip_protocol: Option<u8>,
    pub tcp_src_port: Option<u16>,
    pub tcp_dst_port: Option<u16>,
    pub tcp_sequence: Option<u32>,
    pub tcp_ack: Option<u32>,
    pub tcp_flags: Option<u16>,
    pub udp_src_port: Option<u16>,
    pub udp_dst_port: Option<u16>,
    pub udp_length: Option<u16>,
}

impl View for PacketData {
    type V = PacketModel;

    open spec fn view(&self) -> PacketModel {
        PacketModel {
            raw: self._raw_data@,
            src_mac: self.src_mac.deep_view(),
            dst_mac: self.dst_mac.deep_view(),
            ethertype: self.ethertype,
            src_ip: self.src_ip.deep_view(),
            dst_ip: self.dst_ip.deep_view(),
            ip_protocol: self.ip_protocol,
            tcp_src_port: self.tcp_src_port,
            tcp_dst_port: self.tcp_dst_port,
            tcp_sequence: self.tcp_sequence,
            tcp_ack: self.tcp_ack,
            tcp_flags: self.tcp_flags,
            udp_src_port: self.udp_src_port,
            udp_dst_port: self.udp_dst_port,
            udp_length: self.udp_length,
        }
    }
}

/// Bytes written as two lowercase hex digits each, joined by `:`
/// (`aa:bb:cc:dd:ee:ff` for a MAC address).
pub open spec fn colon_hex(b: Seq<u8>) -> Seq<char>
    decreases b.len(),
{
    if b.len() == 0 {
        Seq::empty()
    } else if b.len() == 1 {
        hex2(b[0])
    } else {
        colon_hex(b.drop_last()) + seq![':'] + hex2(b.last())
    }
}

/// Bytes written in decimal, joined by `.` (`192.168.1.1` for an IPv4
/// address).
pub open spec fn dotted_decimal(b: Seq<u8>) -> Seq<char>
    decreases b.len(),
{
    if b.len() == 0 {
        Seq::empty()
    } else if b.len() == 1 {
        decimal(b[0] as nat)
    } else {
        dotted_decimal(b.drop_last()) + seq!['.'] + decimal(b.last() as nat)
    }
}

/// Formats bytes as colon-separated lowercase hex pairs.
pub fn format_mac(b: &[u8]) -> (s: String)
    ensures
        s@ == colon_hex(b@),
{
    let mut s = String::new();
    let mut i: usize = 0;
    while i < b.len()
        invariant
            i <= b@.len(),
            s@ == colon_hex(b@.take(i as int)),
        decreases b@.len() - i,
    {
        let ghost prev = b@.take(i as int);
        if i > 0 {
            push_char(&mut s, ':');
        }
        push_hex2(&mut s, b[i]);
        proof {
            let next = b@.take(i + 1);
            assert(next.drop_last() =~= prev);
            assert(next.last() == b@[i as int]);
            if i == 0 {
                assert(s@ =~= hex2(b@[0]));
            } else {
                assert(s@ =~= colon_hex(prev) + seq![':'] + hex2(b@[i as int]));
            }
        }
        i = i + 1;
    }
    assert(b@.take(b@.len() as int) =~= b@);
    s
}

/// Formats bytes as dot-separated decimal numbers.
pub fn format_dotted(b: &[u8]) -> (s: String)
    ensures
        s@ == dotted_decimal(b@),
{
    let mut s = String::new();
    let mut i: usize = 0;
    while i < b.len()
        invariant
            i <= b@.len(),
            s@ == dotted_decimal(b@.take(i as int)),
        decreases b@.len() - i,
    {
        let ghost prev = b@.take(i as int);
        if i > 0 {
            push_char(&mut s, '.');
        }
        push_decimal_u8(&mut s, b[i]);
        proof {
            let next = b@.take(i + 1);
            assert(next.drop_last() =~= prev);
            assert(next.last() == b@[i as int]);
            if i == 0 {
                assert(s@ =~= decimal(b@[0] as nat));
            } else {
                assert(s@ =~= dotted_decimal(prev) + seq!['.'] + decimal(b@[i as int] as nat));
            }
        }
        i = i + 1;
    }
    assert(b@.take(b@.len() as int) =~= b@);
    s
}

/// A model with the raw bytes and no decoded field.
pub open spec fn empty_model(raw: Seq<u8>) -> PacketModel {
    PacketModel {
        raw,
        src_mac: None,
        dst_mac: None,
        ethertype: None,
        src_ip: None,
        dst_ip: None,
        ip_protocol: None,
        tcp_src_port: None,
        tcp_dst_port: None,
        tcp_sequence: None,
        tcp_ack: None,
        tcp_flags: None,
        udp_src_port: None,
        udp_dst_port: None,
        udp_length: None,
    }
}

/// Adds the TCP or UDP fields of a transport segment carried with protocol
/// number `protocol`; a segment too short for its header adds nothing.
pub open spec fn with_transport(m: PacketModel, protocol: u8, seg: Seq<u8>) -> PacketModel {
    if protocol == PROTOCOL_TCP && seg.len() >= 20 {
        PacketModel {
            tcp_src_port: Some(be16(seg, 0)),
            tcp_dst_port: Some(be16(seg, 2)),
            tcp_sequence: Some(be32(seg, 4)),
            tcp_ack: Some(be32(seg, 8)),
            tcp_flags: Some(seg[13] as u16),
            ..m
        }
    } else if protocol == PROTOCOL_UDP && seg.len() >= 8 {
        PacketModel {
            udp_src_port: Some(be16(seg, 0)),
            udp_dst_port: Some(be16(seg, 2)),
            udp_length: Some(be16(seg, 4)),
            ..m
        }
    } else {
        m
    }
}

/// Adds the IP fields (and below them the transport fields) of the payload
/// of an Ethernet frame with the given EtherType.
pub open spec fn with_network(m: PacketModel, ethertype: u16, p: Seq<u8>) -> PacketModel {
    if ethertype == ETHERTYPE_IPV4 && p.len() >= 20 {
        let m2 = PacketModel {
            src_ip: Some(dotted_decimal(p.subrange(12, 16))),
            dst_ip: Some(dotted_decimal(p.subrange(16, 20))),
            ip_protocol: Some(p[9]),
            ..m
        };
        with_transport(m2, p[9], ipv4_payload(p))
    } else if ethertype == ETHERTYPE_IPV6 && p.len() >= 40 {
        let m2 = PacketModel {
            src_ip: Some(ipv6_text(p.subrange(8, 24))),
            dst_ip: Some(ipv6_text(p.subrange(24, 40))),
            ip_protocol: Some(p[6]),
            ..m
        };
        with_transport(m2, p[6], ipv6_payload(p))
    } else {
        m
    }
}

/// What a captured frame decodes to: the Ethernet addresses and EtherType
/// when the frame holds a full Ethernet header, then the IPv4 or IPv6
/// addresses and protocol, then the TCP or UDP header fields.
pub open spec fn packet_model(frame: Seq<u8>) -> PacketModel {
    if frame.len() < 14 {
        empty_model(frame)
    } else {
        let m = PacketModel {
            src_mac: Some(colon_hex(frame.subrange(6, 12))),
            dst_mac: Some(colon_hex(frame.subrange(0, 6))),
            ethertype: Some(be16(frame, 12)),
            ..empty_model(frame)
        };
        with_network(m, be16(frame, 12), frame.subrange(14, frame.len() as int))
    }
}

/// Decoded layers nest: transport fields come only with the IP fields of
/// the matching protocol, IP fields only with the Ethernet fields of an IP
/// EtherType, a packet never has both TCP and UDP fields, and the raw
/// bytes are always kept.
pub proof fn law_layers_nest(frame: Seq<u8>)
    ensures
        packet_model(frame).raw == frame,
        frame.len() < 14 ==> packet_model(frame) == empty_model(frame),
        packet_model(frame).src_ip is Some ==> packet_model(frame).ethertype is Some && (
        packet_model(frame).ethertype == Some(ETHERTYPE_IPV4) || packet_model(frame).ethertype
            == Some(ETHERTYPE_IPV6)),
        packet_model(frame).tcp_src_port is Some ==> packet_model(frame).src_ip is Some
            && packet_model(frame).ip_protocol == Some(PROTOCOL_TCP),
        packet_model(frame).udp_src_port is Some ==> packet_model(frame).src_ip is Some
            && packet_model(frame).ip_protocol == Some(PROTOCOL_UDP),
        !(packet_model(frame).tcp_src_port is Some && packet_model(frame).udp_src_port is Some),
{
}

/// A frame of at least fourteen bytes gives its destination MAC (bytes
/// 0..6), source MAC (bytes 6..12) and EtherType (bytes 12..14, big-endian);
/// a shorter one gives no field. IP fields come only with the EtherType of
/// IPv4 (0x0800) or IPv6 (0x86DD); a frame of any other type gives none,
/// nor transport fields.
pub proof fn law_ethernet_fields(frame: Seq<u8>)
    ensures
        frame.len() >= 14 ==> {
            &&& packet_model(frame).dst_mac == Some(colon_hex(frame.subrange(0, 6)))
            &&& packet_model(frame).src_mac == Some(colon_hex(frame.subrange(6, 12)))
            &&& packet_model(frame).ethertype == Some(
                (frame[12] as int * 256 + frame[13] as int) as u16,
            )
        },
        frame.len() < 14 ==> {
            &&& packet_model(frame).dst_mac is None
            &&& packet_model(frame).src_mac is None
            &&& packet_model(frame).ethertype is None
            &&& packet_model(frame).src_ip is None
        },
        frame.len() >= 14 && !(frame[12] == 0x08 && frame[13] == 0x00) && !(frame[12] == 0x86
            && frame[13] == 0xDD) ==> {
            &&& packet_model(frame).src_ip is None
            &&& packet_model(frame).dst_ip is None
            &&& packet_model(frame).ip_protocol is None
            &&& packet_model(frame).tcp_src_port is None
            &&& packet_model(frame).udp_src_port is None
        },
{
    if frame.len() >= 14 {
        let t = frame[12] as int * 256 + frame[13] as int;
        assert(t == 0x0800 ==> frame[12] == 0x08 && frame[13] == 0x00);
        assert(t == 0x86DD ==> frame[12] == 0x86 && frame[13] == 0xDD);
    }
}

/// Over IPv6 the transport header is read from the IP payload (after the
/// forty-byte header, as long as the payload-length field announces), just
/// as over IPv4: with next header 6 and at least twenty payload bytes the
/// TCP ports, sequence and acknowledgement numbers and flags are the
/// big-endian fields at payload offsets 0, 2, 4, 8 and byte 13; with next
/// header 17 and at least eight payload bytes the UDP ports and length are
/// those at offsets 0, 2 and 4. The addresses are the texts of bytes 8..24
/// and 24..40 of the IP header, the protocol its byte 6.
pub proof fn law_ipv6_transport(frame: Seq<u8>)
    requires
        frame.len() >= 54,
        frame[12] == 0x86,
        frame[13] == 0xDD,
    ensures
        packet_model(frame).ethertype == Some(0x86DDu16),
        packet_model(frame).src_ip == Some(ipv6_text(frame.subrange(22, 38))),
        packet_model(frame).dst_ip == Some(ipv6_text(frame.subrange(38, 54))),
        packet_model(frame).ip_protocol == Some(frame[20]),
        frame[20] == 6 && frame[18] as int * 256 + frame[19] as int >= 20 && frame.len() >= 74
            ==> {
            &&& packet_model(frame).tcp_src_port == Some(be16(frame, 54))
            &&& packet_model(frame).tcp_dst_port == Some(be16(frame, 56))
            &&& packet_model(frame).tcp_sequence == Some(be32(frame, 58))
            &&& packet_model(frame).tcp_ack == Some(be32(frame, 62))
            &&& packet_model(frame).tcp_flags == Some(frame[67] as u16)
            &&& packet_model(frame).udp_src_port is None
        },
        frame[20] == 17 && frame[18] as int * 256 + frame[19] as int >= 8 && frame.len() >= 62
            ==> {
            &&& packet_model(frame).udp_src_port == Some(be16(frame, 54))
            &&& packet_model(frame).udp_dst_port == Some(be16(frame, 56))
            &&& packet_model(frame).udp_length == Some(be16(frame, 58))
            &&& packet_model(frame).tcp_src_port is None
        },
{
    let p = frame.subrange(14, frame.len() as int);
    assert(be16(frame, 12) == 0x86DD);
    assert(be16(p, 4) as int == frame[18] as int * 256 + frame[19] as int);
    assert(p.subrange(8, 24) =~= frame.subrange(22, 38));
    assert(p.subrange(24, 40) =~= frame.subrange(38, 54));
    let seg = ipv6_payload(p);
    let plen = frame[18] as int * 256 + frame[19] as int;
    if plen >= 8 && frame.len() >= 62 {
        assert(seg.len() >= 8);
        assert(forall|i: int| 0 <= i < seg.len() ==> seg[i] == frame[54 + i]);
        assert(be16(seg, 0) == be16(frame, 54));
        assert(be16(seg, 2) == be16(frame, 56));
        assert(be16(seg, 4) == be16(frame, 58));
        if plen >= 20 && frame.len() >= 74 {
            assert(seg.len() >= 20);
            assert(be32(seg, 4) == be32(frame, 58));
            assert(be32(seg, 8) == be32(frame, 62));
            assert(seg[13] == frame[67]);
        }
    }
}

/// Over IPv4 the transport header is read from the IP payload, which starts
/// after the header that the IHL field announces (never inside the fixed
/// twenty bytes) and runs for the total length minus the header length:
/// with protocol 6 and at least twenty payload bytes the TCP fields are the
/// big-endian fields at payload offsets 0, 2, 4, 8 and byte 13; with
/// protocol 17 and at least eight, the UDP fields at offsets 0, 2 and 4.
/// The addresses are the dotted texts of header bytes 12..16 and 16..20,
/// the protocol header byte 9.
pub proof fn law_ipv4_transport(frame: Seq<u8>)
    requires
        frame.len() >= 34,
        frame[12] == 0x08,
        frame[13] == 0x00,
    ensures
        packet_model(frame).ethertype == Some(0x0800u16),
        packet_model(frame).src_ip == Some(dotted_decimal(frame.subrange(26, 30))),
        packet_model(frame).dst_ip == Some(dotted_decimal(frame.subrange(30, 34))),
        packet_model(frame).ip_protocol == Some(frame[23]),
        ({
            let h = (frame[14] % 16) as int * 4;
            let start = 14 + if h > 20 { h } else { 20 };
            let total = frame[16] as int * 256 + frame[17] as int;
            frame[23] == 6 && total - h >= 20 && frame.len() >= start + 20 ==> {
                &&& packet_model(frame).tcp_src_port == Some(be16(frame, start))
                &&& packet_model(frame).tcp_dst_port == Some(be16(frame, start + 2))
                &&& packet_model(frame).tcp_sequence == Some(be32(frame, start + 4))
                &&& packet_model(frame).tcp_ack == Some(be32(frame, start + 8))
                &&& packet_model(frame).tcp_flags == Some(frame[start + 13] as u16)
                &&& packet_model(frame).udp_src_port is None
            }
        }),
        ({
            let h = (frame[14] % 16) as int * 4;
            let start = 14 + if h > 20 { h } else { 20 };
            let total = frame[16] as int * 256 + frame[17] as int;
            frame[23] == 17 && total - h >= 8 && frame.len() >= start + 8 ==> {
                &&& packet_model(frame).udp_src_port == Some(be16(frame, start))
                &&& packet_model(frame).udp_dst_port == Some(be16(frame, start + 2))
                &&& packet_model(frame).udp_length == Some(be16(frame, start + 4))
                &&& packet_model(frame).tcp_src_port is None
            }
        }),
{
    let p = frame.subrange(14, frame.len() as int);
    assert(be16(frame, 12) == 0x0800);
    assert(p.subrange(12, 16) =~= frame.subrange(26, 30));
    assert(p.subrange(16, 20) =~= frame.subrange(30, 34));
    let h = (frame[14] % 16) as int * 4;
    let start = 14 + if h > 20 { h } else { 20 };
    let total = frame[16] as int * 256 + frame[17] as int;
    assert(be16(p, 2) as int == total);
    assert(ipv4_payload_start(p) == start - 14);
    let seg = ipv4_payload(p);
    if total - h >= 8 && frame.len() >= start + 8 {
        assert(seg.len() >= 8);
        assert(forall|i: int| 0 <= i < seg.len() ==> seg[i] == frame[start + i]);
        assert(be16(seg, 0) == be16(frame, start));
        assert(be16(seg, 2) == be16(frame, start + 2));
        assert(be16(seg, 4) == be16(frame, start + 4));
        if total - h >= 20 && frame.len() >= start + 20 {
            assert(seg.len() >= 20);
            assert(be32(seg, 4) == be32(frame, start + 4));
            assert(be32(seg, 8) == be32(frame, start + 8));
            assert(seg[13] == frame[start + 13]);
        }
    }
}

fn add_transport(data: &mut PacketData, protocol: u8, seg: &[u8])
    ensures
        final(data)@ == with_transport(old(data)@, protocol, seg@),
{
    if protocol == PROTOCOL_TCP {
        if let Some(tcp) = read_tcp(seg) {
            data.tcp_src_port = Some(tcp.source);
            data.tcp_dst_port = Some(tcp.destination);
            data.tcp_sequence = Some(tcp.sequence);
            data.tcp_ack = Some(tcp.acknowledgement);
            data.tcp_flags = Some(tcp.flags as u16);
        }
    }
    if protocol == PROTOCOL_UDP {
        if let Some(udp) = read_udp(seg) {
            data.udp_src_port = Some(udp.source);
            data.udp_dst_port = Some(udp.destination);
            data.udp_length = Some(udp.length);
        }
    }
}

/// Decodes a captured frame. Layers are read from the outside in: a layer
/// that is missing or too short leaves its fields and those of the layers
/// inside it `None`.
pub fn parse_packet(packet: &[u8]) -> (data: PacketData)
    ensures
        data@ == packet_model(packet@),
{
    let mut data = PacketData {
        _raw_data: vstd::slice::slice_to_vec(packet),
        src_mac: None,
        dst_mac: None,
        ethertype: None,
        src_ip: None,
        dst_ip: None,
        ip_protocol: None,
        tcp_src_port: None,
        tcp_dst_port: None,
        tcp_sequence: None,
        tcp_ack: None,
        tcp_flags: None,
        udp_src_port: None,
        udp_dst_port: None,
        udp_length: None,
    };
    if let Some(eth) = read_ethernet(packet) {
        data.src_mac = Some(format_mac(eth.source.as_slice()));
        data.dst_mac = Some(format_mac(eth.destination.as_slice()));
        data.ethertype = Some(eth.ethertype);
        let ghost m = data@;
        if eth.ethertype == ETHERTYPE_IPV4 {
            if let Some(ip) = read_ipv4(eth.payload.as_slice()) {
                data.src_ip = Some(format_dotted(&ip.source));
                data.dst_ip = Some(format_dotted(&ip.destination));
                data.ip_protocol = Some(ip.protocol);
                add_transport(&mut data, ip.protocol, ip.payload.as_slice());
            }
        } else if eth.ethertype == ETHERTYPE_IPV6 {
            if let Some(ip) = read_ipv6(eth.payload.as_slice()) {
                data.src_ip = Some(ip.source);
                data.dst_ip = Some(ip.destination);
                data.ip_protocol = Some(ip.next_header);
                add_transport(&mut data, ip.next_header, ip.payload.as_slice());
            }
        }
        assert(data@ =~= with_network(m, eth.ethertype, eth.payload@));
    }
    data
}

} // verus!
