//! IPv4, TCP and UDP header fields, read straight off the wire bytes
//! (network byte order). Only the fields the pipeline decides on are kept:
//! addresses, ports, protocol, and the lengths that bound the payload.

use vstd::prelude::*;

use crate::wire::be16;
use crate::wire::be32;
use crate::wire::read_be16;
use crate::wire::read_be32;

verus! {

/// IPv4 protocol number of TCP.
pub const IPPROTO_TCP: u8 = 6;

/// IPv4 protocol number of UDP.
pub const IPPROTO_UDP: u8 = 17;

/// The IPv4 header length in bytes: four times the IHL nibble.
pub open spec fn ipv4_header_len(s: Seq<u8>) -> int {
    4 * (s[0] & 0x0f)
}

/// A well-formed IPv4 header: minimum size present, a legal IHL, and the
/// whole declared header captured.
pub open spec fn ipv4_wf(s: Seq<u8>) -> bool {
    &&& s.len() >= 20
    &&& (s[0] & 0x0f) >= 5
    &&& ipv4_header_len(s) <= s.len()
}

/// The declared total length of the IPv4 packet (header plus payload).
pub open spec fn ipv4_total_length(s: Seq<u8>) -> u16 {
    be16(s[2], s[3])
}

/// The transport protocol number.
pub open spec fn ipv4_protocol(s: Seq<u8>) -> u8 {
    s[9]
}

/// The source address.
pub open spec fn ipv4_source(s: Seq<u8>) -> u32 {
    be32(s[12], s[13], s[14], s[15])
}

/// The destination address.
pub open spec fn ipv4_destination(s: Seq<u8>) -> u32 {
    be32(s[16], s[17], s[18], s[19])
}

/// The fields of an IPv4 header that the pipeline reads.
#[derive(PartialEq, Eq, Structural, Clone, Copy, Debug)]
pub struct Ipv4Header {
    pub header_len: usize,
    pub total_length: u16,
    pub protocol: u8,
    pub source: u32,
    pub destination: u32,
}

/// The header a well-formed IPv4 byte sequence declares.
pub open spec fn ipv4_header_spec(s: Seq<u8>) -> Ipv4Header {
    Ipv4Header {
        header_len: ipv4_header_len(s) as usize,
        total_length: ipv4_total_length(s),
        protocol: ipv4_protocol(s),
        source: ipv4_source(s),
        destination: ipv4_destination(s),
    }
}

/// Reads the IPv4 header fields; `None` exactly when the bytes do not hold a
/// well-formed IPv4 header, in which case the frame is skipped.
pub fn parse_ipv4(s: &[u8]) -> (r: Option<Ipv4Header>)
    ensures
        ipv4_wf(s@) ==> r == Some(ipv4_header_spec(s@)),
        !ipv4_wf(s@) ==> r is None,
{
    if s.len() < 20 {
        return None;
    }
    let ihl = s[0] & 0x0f;
    if ihl < 5 {
        return None;
    }
    let header_len = (ihl as usize) * 4;
    if header_len > s.len() {
        return None;
    }
    Some(
        Ipv4Header {
            header_len,
            total_length: read_be16(s[2], s[3]),
            protocol: s[9],
            source: read_be32(s[12], s[13], s[14], s[15]),
            destination: read_be32(s[16], s[17], s[18], s[19]),
        },
    )
}

/// The TCP header length in bytes: four times the data-offset nibble.
pub open spec fn tcp_header_len(s: Seq<u8>) -> int {
    4 * (s[12] >> 4)
}

/// A well-formed TCP header within an IP payload: minimum size present, a
/// legal data offset, and the whole declared header captured.
pub open spec fn tcp_wf(s: Seq<u8>) -> bool {
    &&& s.len() >= 20
    &&& (s[12] >> 4) >= 5
    &&& tcp_header_len(s) <= s.len()
}

/// The fields of a TCP header that the pipeline reads.
#[derive(PartialEq, Eq, Structural, Clone, Copy, Debug)]
pub struct TcpHeader {
    pub source: u16,
    pub destination: u16,
    pub header_len: usize,
}

/// The header a well-formed TCP byte sequence declares.
pub open spec fn tcp_header_spec(s: Seq<u8>) -> TcpHeader {
    TcpHeader {
        source: be16(s[0], s[1]),
        destination: be16(s[2], s[3]),
        header_len: tcp_header_len(s) as usize,
    }
}

/// Reads the TCP header fields; `None` exactly when the IP payload does not
/// hold a well-formed TCP segment, in which case the frame is skipped.
pub fn parse_tcp(s: &[u8]) -> (r: Option<TcpHeader>)
    ensures
        tcp_wf(s@) ==> r == Some(tcp_header_spec(s@)),
        !tcp_wf(s@) ==> r is None,
{
    if s.len() < 20 {
        return None;
    }
    let doff = s[12] >> 4;
    if doff < 5 {
        return None;
    }
    let header_len = (doff as usize) * 4;
    if header_len > s.len() {
        return None;
    }
    Some(TcpHeader { source: read_be16(s[0], s[1]), destination: read_be16(s[2], s[3]), header_len })
}

/// The fixed UDP header length in bytes.
pub const UDP_HEADER_LEN: usize = 8;

/// A well-formed UDP header within an IP payload: the fixed 8 bytes present.
pub open spec fn udp_wf(s: Seq<u8>) -> bool {
    s.len() >= 8
}

/// The fields of a UDP header that the pipeline reads.
#[derive(PartialEq, Eq, Structural, Clone, Copy, Debug)]
pub struct UdpHeader {
    pub source: u16,
    pub destination: u16,
}

/// The header a well-formed UDP byte sequence declares.
pub open spec fn udp_header_spec(s: Seq<u8>) -> UdpHeader {
    UdpHeader { source: be16(s[0], s[1]), destination: be16(s[2], s[3]) }
}

/// Reads the UDP header fields; `None` exactly when the IP payload does not
/// hold a well-formed UDP datagram, in which case the frame is skipped.
pub fn parse_udp(s: &[u8]) -> (r: Option<UdpHeader>)
    ensures
        udp_wf(s@) ==> r == Some(udp_header_spec(s@)),
        !udp_wf(s@) ==> r is None,
{
    if s.len() < 8 {
        return None;
    }
    Some(UdpHeader { source: read_be16(s[0], s[1]), destination: read_be16(s[2], s[3]) })
}

} // verus!
