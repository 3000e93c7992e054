//! The frame parser: Ethernet, then IPv4 or IPv6, then TCP.
//!
//! A frame is a byte sequence. The spec functions of this module say what
//! each header field is in terms of those bytes; [`parse_frame`] computes
//! them and never fails: a layer that is too short to read is absent, and
//! the payload length then falls back to the captured length.

use vstd::prelude::*;
use crate::address::{IpAddress, MacAddr};
use crate::bytes::{be_value, lemma_pow256_values, read_be};

verus! {

/// Length of the Ethernet header.
pub const ETHERNET_HEADER_LEN: usize = 14;

/// Length of an IPv4 header without options, the least a buffer must hold.
pub const IPV4_MIN_HEADER_LEN: usize = 20;

/// Length of the fixed IPv6 header.
pub const IPV6_HEADER_LEN: usize = 40;

/// Length of a TCP header without options, the least a buffer must hold.
pub const TCP_MIN_HEADER_LEN: usize = 20;

/// EtherType of IPv4.
pub const ETHERTYPE_IPV4: u16 = 0x0800;

/// EtherType of IPv6.
pub const ETHERTYPE_IPV6: u16 = 0x86DD;

/// IP protocol number of TCP.
pub const PROTOCOL_TCP: u8 = 6;

/// The link-layer header of a frame.
#[derive(Debug, Clone, Copy, PartialEq, Eq, Structural)]
pub struct EthernetHeader {
    pub destination: MacAddr,
    pub source: MacAddr,
    pub ethertype: u16,
}

/// The addresses and the protocol marker of the network-layer header.
#[derive(Debug, Clone, Copy, PartialEq, Eq, Structural)]
pub struct IpHeader {
    pub source: IpAddress,
    pub destination: IpAddress,
    pub protocol: u8,
}

/// What the parser could read of one frame.
#[derive(Debug, Clone, Copy, PartialEq, Eq)]
pub struct ParsedFrame {
    /// Absent when the frame is shorter than an Ethernet header.
    pub ethernet: Option<EthernetHeader>,
    /// Absent when the frame carries neither IPv4 nor IPv6, or too little of it.
    pub ip: Option<IpHeader>,
    /// Bytes above the headers, or the captured length when no IP layer was read.
    pub payload_length: u32,
}

/// `a - b`, or zero where that would be negative.
pub open spec fn saturating_diff(a: int, b: int) -> int {
    if a >= b {
        a - b
    } else {
        0
    }
}

/// The Ethernet header of `frame`, present when the frame holds 14 bytes.
pub open spec fn ethernet_header(frame: Seq<u8>) -> Option<EthernetHeader> {
    if frame.len() >= ETHERNET_HEADER_LEN {
        Some(
            EthernetHeader {
                destination: MacAddr { value: be_value(frame.subrange(0, 6)) as u64 },
                source: MacAddr { value: be_value(frame.subrange(6, 12)) as u64 },
                ethertype: be_value(frame.subrange(12, 14)) as u16,
            },
        )
    } else {
        None
    }
}

/// The header length that an IPv4 packet states: its IHL field times four.
pub open spec fn ipv4_header_length(packet: Seq<u8>) -> int {
    (packet[0] % 16) * 4
}

/// The total length that an IPv4 packet states.
pub open spec fn ipv4_total_length(packet: Seq<u8>) -> int {
    be_value(packet.subrange(2, 4)) as int
}

/// The IPv4 header of `packet`, present when the buffer holds 20 bytes.
pub open spec fn ipv4_header(packet: Seq<u8>) -> Option<IpHeader> {
    if packet.len() >= IPV4_MIN_HEADER_LEN {
        Some(
            IpHeader {
                source: IpAddress::V4(be_value(packet.subrange(12, 16)) as u32),
                destination: IpAddress::V4(be_value(packet.subrange(16, 20)) as u32),
                protocol: packet[9],
            },
        )
    } else {
        None
    }
}

/// Where the bytes above an IPv4 header start: after the stated header
/// length, and never inside the first 20 bytes.
pub open spec fn ipv4_payload_start(packet: Seq<u8>) -> int {
    if ipv4_header_length(packet) >= IPV4_MIN_HEADER_LEN {
        ipv4_header_length(packet)
    } else {
        IPV4_MIN_HEADER_LEN as int
    }
}

/// The bytes above an IPv4 header: as many as the total length leaves after
/// the header, as far as the buffer holds them.
pub open spec fn ipv4_payload(packet: Seq<u8>) -> Seq<u8> {
    let start = ipv4_payload_start(packet);
    let stated = saturating_diff(ipv4_total_length(packet), ipv4_header_length(packet));
    if packet.len() <= start {
        Seq::empty()
    } else if start + stated <= packet.len() {
        packet.subrange(start, start + stated)
    } else {
        packet.subrange(start, packet.len() as int)
    }
}

/// The payload length that an IPv6 packet states.
pub open spec fn ipv6_payload_length(packet: Seq<u8>) -> int {
    be_value(packet.subrange(4, 6)) as int
}

/// The IPv6 header of `packet`, present when the buffer holds 40 bytes.
pub open spec fn ipv6_header(packet: Seq<u8>) -> Option<IpHeader> {
    if packet.len() >= IPV6_HEADER_LEN {
        Some(
            IpHeader {
                source: IpAddress::V6(be_value(packet.subrange(8, 24)) as u128),
                destination: IpAddress::V6(be_value(packet.subrange(24, 40)) as u128),
                protocol: packet[6],
            },
        )
    } else {
        None
    }
}

/// The bytes above the fixed IPv6 header: as many as the payload length
/// states, as far as the buffer holds them. Extension headers are not walked.
pub open spec fn ipv6_payload(packet: Seq<u8>) -> Seq<u8> {
    let stated = ipv6_payload_length(packet);
    if packet.len() <= IPV6_HEADER_LEN {
        Seq::empty()
    } else if IPV6_HEADER_LEN + stated <= packet.len() {
        packet.subrange(IPV6_HEADER_LEN as int, IPV6_HEADER_LEN + stated)
    } else {
        packet.subrange(IPV6_HEADER_LEN as int, packet.len() as int)
    }
}

/// The header length that a TCP segment states, its data offset times four,
/// present when the segment holds 20 bytes.
pub open spec fn tcp_header_length(segment: Seq<u8>) -> Option<int> {
    if segment.len() >= TCP_MIN_HEADER_LEN {
        Some((segment[12] / 16) * 4)
    } else {
        None
    }
}

/// The transport header bytes to take off: the TCP header length where the
/// protocol is TCP and its header can be read, nothing otherwise.
pub open spec fn transport_header_length(protocol: u8, segment: Seq<u8>) -> int {
    if protocol == PROTOCOL_TCP {
        match tcp_header_length(segment) {
            Some(length) => length,
            None => 0,
        }
    } else {
        0
    }
}

/// Payload bytes of a readable IPv4 packet: total length less the IP and
/// transport headers, never below zero.
pub open spec fn ipv4_payload_size(packet: Seq<u8>) -> int {
    saturating_diff(
        ipv4_total_length(packet),
        ipv4_header_length(packet) + transport_header_length(packet[9], ipv4_payload(packet)),
    )
}

/// Payload bytes of a readable IPv6 packet: payload length less the
/// transport header, never below zero.
pub open spec fn ipv6_payload_size(packet: Seq<u8>) -> int {
    saturating_diff(
        ipv6_payload_length(packet),
        transport_header_length(packet[6], ipv6_payload(packet)),
    )
}

/// The network-layer header of `frame`, by its EtherType.
pub open spec fn ip_header(frame: Seq<u8>) -> Option<IpHeader> {
    match ethernet_header(frame) {
        Some(ethernet) => {
            if ethernet.ethertype == ETHERTYPE_IPV4 {
                ipv4_header(frame.skip(ETHERNET_HEADER_LEN as int))
            } else if ethernet.ethertype == ETHERTYPE_IPV6 {
                ipv6_header(frame.skip(ETHERNET_HEADER_LEN as int))
            } else {
                None
            }
        },
        None => None,
    }
}

/// The payload length of `frame`: that of its IP packet where one is read,
/// the captured length otherwise.
pub open spec fn payload_length(frame: Seq<u8>, captured_length: u32) -> int {
    match ethernet_header(frame) {
        Some(ethernet) => {
            let packet = frame.skip(ETHERNET_HEADER_LEN as int);
            if ethernet.ethertype == ETHERTYPE_IPV4 && ipv4_header(packet).is_some() {
                ipv4_payload_size(packet)
            } else if ethernet.ethertype == ETHERTYPE_IPV6 && ipv6_header(packet).is_some() {
                ipv6_payload_size(packet)
            } else {
                captured_length as int
            }
        },
        None => captured_length as int,
    }
}

/// Everything the parser reports of `frame`.
pub open spec fn parsed(frame: Seq<u8>, captured_length: u32) -> ParsedFrame {
    ParsedFrame {
        ethernet: ethernet_header(frame),
        ip: ip_header(frame),
        payload_length: payload_length(frame, captured_length) as u32,
    }
}

/// A payload length is never negative and fits in 32 bits.
pub proof fn lemma_payload_length_range(frame: Seq<u8>, captured_length: u32)
    ensures
        0 <= payload_length(frame, captured_length) <= u32::MAX,
{
    if frame.len() >= ETHERNET_HEADER_LEN {
        let packet = frame.skip(ETHERNET_HEADER_LEN as int);
        lemma_pow256_values();
        crate::bytes::lemma_be_value_bound(packet.subrange(2, 4));
        crate::bytes::lemma_be_value_bound(packet.subrange(4, 6));
    }
}

/// Payload extraction: the payload length of an IPv4 frame whose TCP header
/// can be read is the total length less both stated header lengths, and it
/// is zero, not negative, where the headers claim as much as the total
/// length or more.
pub proof fn law_ipv4_tcp_payload_never_underflows(frame: Seq<u8>, captured_length: u32)
    requires
        ethernet_header(frame) matches Some(ethernet) && ethernet.ethertype == ETHERTYPE_IPV4,
        ipv4_header(frame.skip(ETHERNET_HEADER_LEN as int)) matches Some(header) && header.protocol
            == PROTOCOL_TCP,
        tcp_header_length(ipv4_payload(frame.skip(ETHERNET_HEADER_LEN as int))).is_some(),
    ensures
        ({
            let packet = frame.skip(ETHERNET_HEADER_LEN as int);
            let total = ipv4_total_length(packet);
            let headers = ipv4_header_length(packet) + tcp_header_length(
                ipv4_payload(packet),
            ).unwrap();
            &&& headers >= total ==> payload_length(frame, captured_length) == 0
            &&& headers < total ==> payload_length(frame, captured_length) == total - headers
        }),
{
}

/// The payload length of a frame whose IP layer is read never exceeds the
/// length that the IP header states, whatever the transport header claims.
pub proof fn law_payload_within_stated_length(frame: Seq<u8>, captured_length: u32)
    requires
        ip_header(frame).is_some(),
    ensures
        ({
            let packet = frame.skip(ETHERNET_HEADER_LEN as int);
            let ethertype = ethernet_header(frame).unwrap().ethertype;
            &&& 0 <= payload_length(frame, captured_length)
            &&& ethertype == ETHERTYPE_IPV4 ==> payload_length(frame, captured_length)
                <= ipv4_total_length(packet)
            &&& ethertype == ETHERTYPE_IPV6 ==> payload_length(frame, captured_length)
                <= ipv6_payload_length(packet)
        }),
{
}

/// A frame whose IP layer cannot be read has the captured length as its
/// payload length.
pub proof fn law_unparsed_frame_keeps_captured_length(frame: Seq<u8>, captured_length: u32)
    requires
        ip_header(frame).is_none(),
    ensures
        payload_length(frame, captured_length) == captured_length,
        parsed(frame, captured_length).payload_length == captured_length,
{
}

/// The TCP header length of the segment `data[start..end]`, zero when the
/// protocol is not TCP or the segment holds less than a TCP header.
fn read_transport_header_length(data: &[u8], protocol: u8, start: usize, end: usize) -> (length:
    u32)
    requires
        start <= end <= data.len(),
    ensures
        length == transport_header_length(protocol, data@.subrange(start as int, end as int)),
        length <= 60,
{
    if protocol == PROTOCOL_TCP && end - start >= TCP_MIN_HEADER_LEN {
        let offset_byte: u8 = data[start + 12];
        ((offset_byte / 16) as u32) * 4
    } else {
        0
    }
}

/// Reads the IPv4 packet that starts at `at`: its header, if the buffer
/// holds one, and its payload length.
fn parse_ipv4(data: &[u8], at: usize) -> (result: Option<(IpHeader, u32)>)
    requires
        at <= data.len(),
    ensures
        (match result {
            Some((header, size)) => ipv4_header(data@.skip(at as int)) == Some(header) && size
                == ipv4_payload_size(data@.skip(at as int)),
            None => ipv4_header(data@.skip(at as int)).is_none(),
        }),
{
    let available: usize = data.len() - at;
    if available < IPV4_MIN_HEADER_LEN {
        return None;
    }
    let ghost packet = data@.skip(at as int);
    proof {
        lemma_pow256_values();
        assert(packet.subrange(2, 4) =~= data@.subrange(at + 2, at + 4));
        assert(packet.subrange(12, 16) =~= data@.subrange(at + 12, at + 16));
        assert(packet.subrange(16, 20) =~= data@.subrange(at + 16, at + 20));
    }
    let header_length: u32 = ((data[at] % 16) as u32) * 4;
    let total_length: u32 = read_be(data, at + 2, 2) as u32;
    let protocol: u8 = data[at + 9];
    let source: u32 = read_be(data, at + 12, 4) as u32;
    let destination: u32 = read_be(data, at + 16, 4) as u32;
    let header = IpHeader {
        source: IpAddress::V4(source),
        destination: IpAddress::V4(destination),
        protocol,
    };
    let start: usize = if header_length as usize >= IPV4_MIN_HEADER_LEN {
        header_length as usize
    } else {
        IPV4_MIN_HEADER_LEN
    };
    let stated: usize = total_length.saturating_sub(header_length) as usize;
    let transport: u32 = if available <= start {
        proof {
            assert(ipv4_payload(packet) =~= Seq::<u8>::empty());
            assert(data@.subrange(at as int, at as int) =~= Seq::<u8>::empty());
        }
        read_transport_header_length(data, protocol, at, at)
    } else if stated <= available - start {
        proof {
            assert(ipv4_payload(packet) =~= data@.subrange(at + start, at + start + stated));
        }
        read_transport_header_length(data, protocol, at + start, at + start + stated)
    } else {
        proof {
            assert(ipv4_payload(packet) =~= data@.subrange(at + start, data@.len() as int));
        }
        read_transport_header_length(data, protocol, at + start, data.len())
    };
    Some((header, total_length.saturating_sub(header_length + transport)))
}

/// Reads the IPv6 packet that starts at `at`: its header, if the buffer
/// holds one, and its payload length.
fn parse_ipv6(data: &[u8], at: usize) -> (result: Option<(IpHeader, u32)>)
    requires
        at <= data.len(),
    ensures
        (match result {
            Some((header, size)) => ipv6_header(data@.skip(at as int)) == Some(header) && size
                == ipv6_payload_size(data@.skip(at as int)),
            None => ipv6_header(data@.skip(at as int)).is_none(),
        }),
{
    let available: usize = data.len() - at;
    if available < IPV6_HEADER_LEN {
        return None;
    }
    let ghost packet = data@.skip(at as int);
    proof {
        lemma_pow256_values();
        assert(packet.subrange(4, 6) =~= data@.subrange(at + 4, at + 6));
        assert(packet.subrange(8, 24) =~= data@.subrange(at + 8, at + 24));
        assert(packet.subrange(24, 40) =~= data@.subrange(at + 24, at + 40));
    }
    let stated_length: u32 = read_be(data, at + 4, 2) as u32;
    let protocol: u8 = data[at + 6];
    let source: u128 = read_be(data, at + 8, 16);
    let destination: u128 = read_be(data, at + 24, 16);
    let header = IpHeader {
        source: IpAddress::V6(source),
        destination: IpAddress::V6(destination),
        protocol,
    };
    let stated: usize = stated_length as usize;
    let transport: u32 = if available <= IPV6_HEADER_LEN {
        proof {
            assert(ipv6_payload(packet) =~= Seq::<u8>::empty());
            assert(data@.subrange(at as int, at as int) =~= Seq::<u8>::empty());
        }
        read_transport_header_length(data, protocol, at, at)
    } else if stated <= available - IPV6_HEADER_LEN {
        proof {
            assert(ipv6_payload(packet) =~= data@.subrange(at + 40, at + 40 + stated));
        }
        read_transport_header_length(
            data,
            protocol,
            at + IPV6_HEADER_LEN,
            at + IPV6_HEADER_LEN + stated,
        )
    } else {
        proof {
            assert(ipv6_payload(packet) =~= data@.subrange(at + 40, data@.len() as int));
        }
        read_transport_header_length(data, protocol, at + IPV6_HEADER_LEN, data.len())
    };
    Some((header, stated_length.saturating_sub(transport)))
}

/// Parses one captured frame.
///
/// `captured_length` is the length that the capture source reports for the
/// frame; it is the payload length of a frame whose IP layer cannot be read.
pub fn parse_frame(data: &[u8], captured_length: u32) -> (frame: ParsedFrame)
    ensures
        frame == parsed(data@, captured_length),
{
    proof {
        lemma_payload_length_range(data@, captured_length);
    }
    if data.len() < ETHERNET_HEADER_LEN {
        return ParsedFrame { ethernet: None, ip: None, payload_length: captured_length };
    }
    proof {
        lemma_pow256_values();
    }
    let destination = MacAddr { value: read_be(data, 0, 6) as u64 };
    let source = MacAddr { value: read_be(data, 6, 6) as u64 };
    let ethertype: u16 = read_be(data, 12, 2) as u16;
    let ethernet = EthernetHeader { destination, source, ethertype };
    let network = if ethertype == ETHERTYPE_IPV4 {
        parse_ipv4(data, ETHERNET_HEADER_LEN)
    } else if ethertype == ETHERTYPE_IPV6 {
        parse_ipv6(data, ETHERNET_HEADER_LEN)
    } else {
        None
    };
    match network {
        Some((header, size)) => ParsedFrame {
            ethernet: Some(ethernet),
            ip: Some(header),
            payload_length: size,
        },
        None => ParsedFrame { ethernet: Some(ethernet), ip: None, payload_length: captured_length },
    }
}

} // verus!
