//! Header field extraction and flow-key tests.

use pcap_parse::flow::FlowKey;
use pcap_parse::ip::parse_ipv4;
use pcap_parse::ip::parse_tcp;
use pcap_parse::ip::parse_udp;
use pcap_parse::wire::read_be16;
use pcap_parse::wire::read_be32;
use pcap_parse::wire::read_le16;

#[test]
fn byte_order_helpers() {
    assert_eq!(read_le16(0x34, 0x12), 0x1234);
    assert_eq!(read_be16(0x12, 0x34), 0x1234);
    assert_eq!(read_be32(0xC0, 0xA8, 0x00, 0x01), 0xC0A8_0001);
    assert_eq!(read_le16(0xFF, 0xFF), 0xFFFF);
}

#[test]
fn ipv4_fields_are_extracted() {
    let mut h = vec![0x45u8, 0, 0x00, 0x30, 0, 0, 0, 0, 64, 6, 0, 0];
    h.extend_from_slice(&[10, 0, 0, 1]);
    h.extend_from_slice(&[10, 0, 0, 2]);
    let ip = parse_ipv4(&h).expect("well-formed header");
    assert_eq!(ip.header_len, 20);
    assert_eq!(ip.total_length, 0x30);
    assert_eq!(ip.protocol, 6);
    assert_eq!(ip.source, 0x0A00_0001);
    assert_eq!(ip.destination, 0x0A00_0002);
}

#[test]
fn ipv4_rejects_short_or_inconsistent_headers() {
    assert!(parse_ipv4(&[0x45; 19]).is_none());
    // IHL of 4 words is below the IPv4 minimum of 5.
    let mut h = vec![0x44u8];
    h.extend_from_slice(&[0; 19]);
    assert!(parse_ipv4(&h).is_none());
    // IHL of 15 words declares 60 bytes, more than are captured.
    let mut h = vec![0x4Fu8];
    h.extend_from_slice(&[0; 19]);
    assert!(parse_ipv4(&h).is_none());
}

#[test]
fn tcp_fields_are_extracted() {
    let mut h = vec![0x30, 0x39, 0x01, 0xBB]; // ports 12345 -> 443
    h.extend_from_slice(&[0; 8]);
    h.push(0x50); // data offset 5 words
    h.extend_from_slice(&[0; 7]);
    let tcp = parse_tcp(&h).expect("well-formed header");
    assert_eq!(tcp.source, 12345);
    assert_eq!(tcp.destination, 443);
    assert_eq!(tcp.header_len, 20);
}

#[test]
fn tcp_rejects_bad_offsets() {
    assert!(parse_tcp(&[0; 19]).is_none());
    let mut h = vec![0u8; 20];
    h[12] = 0x40; // data offset 4 words: below the TCP minimum
    assert!(parse_tcp(&h).is_none());
    h[12] = 0x60; // data offset 6 words: 24 bytes declared, 20 captured
    assert!(parse_tcp(&h).is_none());
}

#[test]
fn udp_fields_are_extracted() {
    let h = vec![0x00, 0x35, 0xC0, 0x00, 0, 8, 0, 0]; // ports 53 -> 49152
    let udp = parse_udp(&h).expect("well-formed header");
    assert_eq!(udp.source, 53);
    assert_eq!(udp.destination, 49152);
    assert!(parse_udp(&h[..7]).is_none());
}

#[test]
fn flow_key_reversal_round_trips() {
    let k = FlowKey {
        src_addr: 0x0A00_0001,
        dst_addr: 0x0A00_0002,
        src_port: 12345,
        dst_port: 443,
        protocol: 6,
    };
    let r = k.get_reverse();
    assert_eq!(r.src_addr, 0x0A00_0002);
    assert_eq!(r.dst_addr, 0x0A00_0001);
    assert_eq!(r.src_port, 443);
    assert_eq!(r.dst_port, 12345);
    assert_eq!(r.protocol, 6);
    assert_eq!(r.get_reverse(), k);
    assert_ne!(r, k);
}

#[test]
fn flow_key_reversal_fixed_point() {
    // A key whose endpoints coincide is its own reverse.
    let k = FlowKey { src_addr: 1, dst_addr: 1, src_port: 9, dst_port: 9, protocol: 17 };
    assert_eq!(k.get_reverse(), k);
}
