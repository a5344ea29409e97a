use nethound::monitor::{approval_message, classify_packet, update_firewall, Event};
use nethound::packet_data::{format_dotted, format_mac, parse_packet};
use nethound::traffic_log::{get_db_path, packet_summary, save_packet_summary, traffic_db_path};

fn ethernet(dst: [u8; 6], src: [u8; 6], ethertype: u16, payload: &[u8]) -> Vec<u8> {
    let mut f = Vec::new();
    f.extend_from_slice(&dst);
    f.extend_from_slice(&src);
    f.extend_from_slice(&ethertype.to_be_bytes());
    f.extend_from_slice(payload);
    f
}

fn ipv4(protocol: u8, src: [u8; 4], dst: [u8; 4], payload: &[u8]) -> Vec<u8> {
    let total = (20 + payload.len()) as u16;
    let mut p = vec![0x45, 0x00];
    p.extend_from_slice(&total.to_be_bytes());
    p.extend_from_slice(&[0x12, 0x34, 0x40, 0x00, 64, protocol, 0x00, 0x00]);
    p.extend_from_slice(&src);
    p.extend_from_slice(&dst);
    p.extend_from_slice(payload);
    p
}

fn tcp(src: u16, dst: u16, seq: u32, ack: u32, flags: u8) -> Vec<u8> {
    let mut t = Vec::new();
    t.extend_from_slice(&src.to_be_bytes());
    t.extend_from_slice(&dst.to_be_bytes());
    t.extend_from_slice(&seq.to_be_bytes());
    t.extend_from_slice(&ack.to_be_bytes());
    t.extend_from_slice(&[0x50, flags, 0xff, 0xff, 0x00, 0x00, 0x00, 0x00]);
    t
}

fn udp(src: u16, dst: u16, len: u16) -> Vec<u8> {
    let mut u = Vec::new();
    u.extend_from_slice(&src.to_be_bytes());
    u.extend_from_slice(&dst.to_be_bytes());
    u.extend_from_slice(&len.to_be_bytes());
    u.extend_from_slice(&[0x00, 0x00]);
    u
}

const DST: [u8; 6] = [0x01, 0x02, 0x03, 0x04, 0x05, 0x06];
const SRC: [u8; 6] = [0xaa, 0xbb, 0xcc, 0xdd, 0xee, 0xff];

fn tcp_frame() -> Vec<u8> {
    let seg = tcp(443, 51000, 0x01020304, 0x0a0b0c0d, 0x18);
    ethernet(DST, SRC, 0x0800, &ipv4(6, [192, 168, 1, 10], [10, 0, 0, 1], &seg))
}

#[test]
fn decodes_tcp_over_ipv4() {
    let frame = tcp_frame();
    let d = parse_packet(&frame);
    assert_eq!(d._raw_data, frame);
    assert_eq!(d.src_mac.as_deref(), Some("aa:bb:cc:dd:ee:ff"));
    assert_eq!(d.dst_mac.as_deref(), Some("01:02:03:04:05:06"));
    assert_eq!(d.ethertype, Some(0x0800));
    assert_eq!(d.src_ip.as_deref(), Some("192.168.1.10"));
    assert_eq!(d.dst_ip.as_deref(), Some("10.0.0.1"));
    assert_eq!(d.ip_protocol, Some(6));
    assert_eq!(d.tcp_src_port, Some(443));
    assert_eq!(d.tcp_dst_port, Some(51000));
    assert_eq!(d.tcp_sequence, Some(0x01020304));
    assert_eq!(d.tcp_ack, Some(0x0a0b0c0d));
    assert_eq!(d.tcp_flags, Some(0x18));
    assert_eq!(d.udp_src_port, None);
    assert_eq!(d.udp_dst_port, None);
    assert_eq!(d.udp_length, None);
}

#[test]
fn decodes_udp_over_ipv6() {
    let mut ip = vec![0x60, 0x00, 0x00, 0x00, 0x00, 0x08, 17, 64];
    let mut src = [0u8; 16];
    src[0] = 0x20;
    src[1] = 0x01;
    src[2] = 0x0d;
    src[3] = 0xb8;
    src[15] = 0x01;
    let mut dst = [0u8; 16];
    dst[0] = 0xfe;
    dst[1] = 0x80;
    dst[15] = 0x02;
    ip.extend_from_slice(&src);
    ip.extend_from_slice(&dst);
    ip.extend_from_slice(&udp(53, 5353, 8));
    let frame = ethernet(DST, SRC, 0x86dd, &ip);
    let d = parse_packet(&frame);
    assert_eq!(d.src_ip.as_deref(), Some("2001:db8::1"));
    assert_eq!(d.dst_ip.as_deref(), Some("fe80::2"));
    assert_eq!(d.ip_protocol, Some(17));
    assert_eq!(d.udp_src_port, Some(53));
    assert_eq!(d.udp_dst_port, Some(5353));
    assert_eq!(d.udp_length, Some(8));
    assert_eq!(d.tcp_src_port, None);
}

#[test]
fn short_frame_decodes_to_nothing() {
    let frame = vec![1u8, 2, 3, 4, 5, 6, 7, 8, 9, 10];
    let d = parse_packet(&frame);
    assert_eq!(d._raw_data, frame);
    assert_eq!(d.src_mac, None);
    assert_eq!(d.dst_mac, None);
    assert_eq!(d.ethertype, None);
    assert_eq!(d.src_ip, None);
    assert_eq!(d.tcp_src_port, None);
    assert_eq!(d.udp_src_port, None);
}

#[test]
fn non_ip_frame_keeps_only_ethernet_fields() {
    let frame = ethernet(DST, SRC, 0x0806, &[0u8; 28]);
    let d = parse_packet(&frame);
    assert_eq!(d.ethertype, Some(0x0806));
    assert_eq!(d.src_mac.as_deref(), Some("aa:bb:cc:dd:ee:ff"));
    assert_eq!(d.src_ip, None);
    assert_eq!(d.ip_protocol, None);
}

#[test]
fn truncated_transport_header_is_not_decoded() {
    // The IPv4 header announces a TCP segment, but only 10 bytes follow.
    let frame = ethernet(DST, SRC, 0x0800, &ipv4(6, [1, 2, 3, 4], [5, 6, 7, 8], &[0u8; 10]));
    let d = parse_packet(&frame);
    assert_eq!(d.src_ip.as_deref(), Some("1.2.3.4"));
    assert_eq!(d.ip_protocol, Some(6));
    assert_eq!(d.tcp_src_port, None);
}

#[test]
fn ipv4_payload_follows_the_total_length_field() {
    // Total length says 28 bytes (8 of payload), but 20 more bytes of padding follow:
    // only the 8 announced bytes are the UDP datagram.
    let mut ip = ipv4(17, [1, 1, 1, 1], [2, 2, 2, 2], &udp(1000, 2000, 8));
    ip.extend_from_slice(&[0xee; 20]);
    let frame = ethernet(DST, SRC, 0x0800, &ip);
    let d = parse_packet(&frame);
    assert_eq!(d.udp_src_port, Some(1000));
    assert_eq!(d.udp_length, Some(8));
}

#[test]
fn formats_addresses() {
    assert_eq!(format_mac(&[0x00, 0x1a, 0xff, 0x09, 0x10, 0xab]), "00:1a:ff:09:10:ab");
    assert_eq!(format_dotted(&[0, 9, 10, 255]), "0.9.10.255");
    assert_eq!(format_dotted(&[100, 99, 1, 200]), "100.99.1.200");
    assert_eq!(format_mac(&[]), "");
}

#[test]
fn classifies_packets() {
    let d = parse_packet(&tcp_frame());
    assert!(matches!(classify_packet(d.clone()), Event::PacketReceived(_)));
    let mut dropped = d;
    dropped.src_ip = Some("192.168.1.10300".to_string());
    assert!(matches!(classify_packet(dropped), Event::DropPacket(_)));
}

#[test]
fn drop_rule_names_the_source() {
    let d = parse_packet(&tcp_frame());
    assert_eq!(
        update_firewall(&d),
        Some(vec![
            "iptables".to_string(),
            "-I".to_string(),
            "INPUT".to_string(),
            "-s".to_string(),
            "192.168.1.10".to_string(),
            "-j".to_string(),
            "DROP".to_string(),
        ])
    );
    let none = parse_packet(&[0u8; 4]);
    assert_eq!(update_firewall(&none), None);
}

#[test]
fn approval_message_pairs_ip_and_mac() {
    let d = parse_packet(&tcp_frame());
    assert_eq!(approval_message(&d).as_deref(), Some("192.168.1.10\naa:bb:cc:dd:ee:ff\n"));
    let arp = parse_packet(&ethernet(DST, SRC, 0x0806, &[0u8; 28]));
    assert_eq!(approval_message(&arp), None);
}

#[test]
fn summarizes_packets() {
    let frame = tcp_frame();
    let d = parse_packet(&frame);
    let log = packet_summary(&d, "2024-05-01T10:00:00+00:00".to_string());
    assert_eq!(log.timestamp, "2024-05-01T10:00:00+00:00");
    assert_eq!(log.src_ip, "192.168.1.10");
    assert_eq!(log.dst_ip, "10.0.0.1");
    assert_eq!(log.src_mac, "aa:bb:cc:dd:ee:ff");
    assert_eq!(log.dst_mac, "01:02:03:04:05:06");
    assert_eq!(log.protocol, "TCP");
    assert_eq!(log.bytes, frame.len());
    assert_eq!(log.count, 1);

    let arp = parse_packet(&ethernet(DST, SRC, 0x0806, &[0u8; 28]));
    let log = packet_summary(&arp, "t".to_string());
    assert_eq!(log.src_ip, "None");
    assert_eq!(log.dst_ip, "None");
    assert_eq!(log.protocol, "Other");
    assert_eq!(log.bytes, 42);
}

#[test]
fn summary_of_udp_and_now() {
    let mut ip = ipv4(17, [1, 1, 1, 1], [2, 2, 2, 2], &udp(1000, 2000, 8));
    ip.extend_from_slice(&[]);
    let d = parse_packet(&ethernet(DST, SRC, 0x0800, &ip));
    let log = save_packet_summary(&d);
    assert_eq!(log.protocol, "UDP");
    assert!(!log.timestamp.is_empty());
    let t = log.timestamp.as_bytes();
    assert!(t.len() >= 25);
    assert_eq!(t[10], b'T');
    assert_eq!(t[4], b'-');
    assert_eq!(t[7], b'-');
    assert_eq!(t[13], b':');
    assert_eq!(t[16], b':');
    assert!(log.timestamp.ends_with("+00:00"));
}

#[test]
fn daily_database_path() {
    assert_eq!(traffic_db_path("2024-05-01"), "/var/lib/nethound/traffic_2024-05-01.db");
}

#[test]
fn todays_database_path_has_a_date() {
    let path = get_db_path();
    let prefix = "/var/lib/nethound/traffic_";
    assert!(path.starts_with(prefix));
    assert!(path.ends_with(".db"));
    let day = &path[prefix.len()..path.len() - 3];
    let b = day.as_bytes();
    assert_eq!(b.len(), 10);
    for (i, ch) in b.iter().enumerate() {
        if i == 4 || i == 7 {
            assert_eq!(*ch, b'-');
        } else {
            assert!(ch.is_ascii_digit());
        }
    }
    let month: u32 = day[5..7].parse().unwrap();
    let dom: u32 = day[8..10].parse().unwrap();
    assert!((1..=12).contains(&month));
    assert!((1..=31).contains(&dom));
    assert_eq!(path, traffic_db_path(day));
}
