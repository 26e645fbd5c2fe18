//! Ethernet, IPv4 and UDP framing.

use crate::addr::{Ipv4Addr, MacAddr};
use vstd::prelude::*;

verus! {

/// The number that two bytes spell, most significant first.
pub open spec fn be16(bytes: Seq<u8>, at: int) -> u16 {
    (bytes[at] * 0x100 + bytes[at + 1]) as u16
}

/// The number that four bytes spell, most significant first.
pub open spec fn be32(bytes: Seq<u8>, at: int) -> u32 {
    (bytes[at] * 0x100_0000 + bytes[at + 1] * 0x1_0000 + bytes[at + 2] * 0x100 + bytes[at
        + 3]) as u32
}

/// The EtherType of IPv4.
pub const ETHERTYPE_IPV4: u16 = 0x0800;

/// The IP protocol number of UDP.
pub const IP_PROTOCOL_UDP: u8 = 17;

/// What is read of an Ethernet frame.
pub struct EthernetFrame {
    pub source: MacAddr,
    pub ethertype: u16,
    pub payload: Vec<u8>,
}

/// What is read of an IPv4 packet.
pub struct Ipv4Packet {
    pub protocol: u8,
    pub payload: Vec<u8>,
}

/// What is read of a UDP datagram.
pub struct UdpDatagram {
    pub destination: u16,
    pub payload: Vec<u8>,
}

/// The length of the header of an IPv4 packet: as many words as it says, but
/// never fewer than five.
pub open spec fn ipv4_header_len(packet: Seq<u8>) -> int {
    let stated = (packet[0] & 0xf) * 4;
    if stated < 20 {
        20
    } else {
        stated
    }
}

/// What an IPv4 packet carries: from the end of its header as many bytes as its
/// total length leaves beyond the stated header, or as many as there are.
pub open spec fn ipv4_payload(packet: Seq<u8>) -> Seq<u8> {
    let start = ipv4_header_len(packet);
    let stated = be16(packet, 2) - (packet[0] & 0xf) * 4;
    let end = if stated < 0 {
        start
    } else if start + stated > packet.len() {
        packet.len() as int
    } else {
        start + stated
    };
    if packet.len() <= start {
        Seq::empty()
    } else {
        packet.subrange(start, end)
    }
}

/// `pnet::packet::ethernet::EthernetPacket`: `new` takes any buffer that holds
/// the fourteen bytes of a header; `get_source` is the second address in it,
/// `get_ethertype` the two bytes after the addresses, and `payload` the rest.
#[verifier::external_body]
pub(crate) fn read_ethernet(buf: &[u8]) -> (r: Option<EthernetFrame>)
    ensures
        r is Some <==> buf@.len() >= 14,
        r matches Some(frame) ==> frame.source == MacAddr(
            buf@[6],
            buf@[7],
            buf@[8],
            buf@[9],
            buf@[10],
            buf@[11],
        ),
        r matches Some(frame) ==> frame.ethertype == be16(buf@, 12),
        r matches Some(frame) ==> frame.payload@ == buf@.subrange(14, buf@.len() as int),
{
    let frame = pnet::packet::ethernet::EthernetPacket::new(buf)?;
    let mac = frame.get_source();
    Some(EthernetFrame {
        source: MacAddr(mac.0, mac.1, mac.2, mac.3, mac.4, mac.5),
        ethertype: frame.get_ethertype().0,
        payload: pnet::packet::Packet::payload(&frame).to_vec(),
    })
}

/// `pnet::packet::ipv4::Ipv4Packet`: `new` takes any buffer that holds the
/// twenty bytes of a header without options; `get_next_level_protocol` is the
/// tenth byte, and `payload` is what the two stated lengths leave.
#[verifier::external_body]
fn read_ipv4(buf: &[u8]) -> (r: Option<Ipv4Packet>)
    ensures
        r is Some <==> buf@.len() >= 20,
        r matches Some(packet) ==> packet.protocol == buf@[9],
        r matches Some(packet) ==> packet.payload@ == ipv4_payload(buf@),
{
    let packet = pnet::packet::ipv4::Ipv4Packet::new(buf)?;
    Some(Ipv4Packet {
        protocol: packet.get_next_level_protocol().0,
        payload: pnet::packet::Packet::payload(&packet).to_vec(),
    })
}

/// `pnet::packet::udp::UdpPacket`: `new` takes any buffer that holds the eight
/// bytes of a header; `get_destination` is the second pair of bytes, and
/// `payload` is all that follows the header.
#[verifier::external_body]
fn read_udp(buf: &[u8]) -> (r: Option<UdpDatagram>)
    ensures
        r is Some <==> buf@.len() >= 8,
        r matches Some(datagram) ==> datagram.destination == be16(buf@, 2),
        r matches Some(datagram) ==> datagram.payload@ == buf@.subrange(8, buf@.len() as int),
{
    let datagram = pnet::packet::udp::UdpPacket::new(buf)?;
    Some(UdpDatagram {
        destination: datagram.get_destination(),
        payload: pnet::packet::Packet::payload(&datagram).to_vec(),
    })
}

/// What a frame carries for UDP port `port`: `None` where it is not an IPv4
/// UDP datagram for that port.
pub open spec fn udp_payload_for(frame: Seq<u8>, port: u16) -> Option<Seq<u8>> {
    let packet = frame.subrange(14, frame.len() as int);
    let datagram = ipv4_payload(packet);
    if frame.len() < 14 || be16(frame, 12) != ETHERTYPE_IPV4 {
        None
    } else if packet.len() < 20 || packet[9] != IP_PROTOCOL_UDP {
        None
    } else if datagram.len() < 8 || be16(datagram, 2) != port {
        None
    } else {
        Some(datagram.subrange(8, datagram.len() as int))
    }
}

/// Strips the Ethernet, IPv4 and UDP headers off a frame for UDP port
/// `expected_port`.
pub fn strip_udp_headers(buf: &[u8], expected_port: u16) -> (r: Option<Vec<u8>>)
    ensures
        match r {
            Some(payload) => udp_payload_for(buf@, expected_port) == Some(payload@),
            None => udp_payload_for(buf@, expected_port) is None,
        },
{
    let frame = match read_ethernet(buf) {
        Some(frame) => frame,
        None => {
            return None;
        },
    };
    if frame.ethertype != ETHERTYPE_IPV4 {
        return None;
    }
    let packet = match read_ipv4(frame.payload.as_slice()) {
        Some(packet) => packet,
        None => {
            return None;
        },
    };
    if packet.protocol != IP_PROTOCOL_UDP {
        return None;
    }
    let datagram = match read_udp(packet.payload.as_slice()) {
        Some(datagram) => datagram,
        None => {
            return None;
        },
    };
    if datagram.destination != expected_port {
        return None;
    }
    Some(datagram.payload)
}

/// The time to live of packets that the router sends.
pub const IPV4_TTL: u8 = 64;

/// The length of the IPv4 header of packets that the router sends.
pub const IPV4_HEADER_LEN: usize = 20;

/// The length of a UDP header.
pub const UDP_HEADER_LEN: usize = 8;

/// The longest payload that fits a UDP datagram.
pub const MAX_UDP_PAYLOAD: usize = 65507;

/// The addresses and ports of a UDP datagram.
#[derive(Clone, Copy, Debug, PartialEq, Eq, Structural)]
pub struct UdpRoute {
    pub src_mac: MacAddr,
    pub dst_mac: MacAddr,
    pub src_ip: Ipv4Addr,
    pub dst_ip: Ipv4Addr,
    pub src_port: u16,
    pub dst_port: u16,
}

/// A payload that is too long for a UDP datagram.
#[derive(Clone, Copy, Debug, PartialEq, Eq, Structural)]
pub struct PayloadTooLong {
    pub len: usize,
}

/// The two bytes of a number, most significant first.
pub open spec fn be16_bytes(n: u16) -> Seq<u8> {
    seq![(n / 0x100) as u8, (n % 0x100) as u8]
}

/// The bytes of a link-layer address.
pub open spec fn octets(mac: MacAddr) -> Seq<u8> {
    seq![mac.0, mac.1, mac.2, mac.3, mac.4, mac.5]
}

/// The upper half of a number.
pub open spec fn high(n: u32) -> u16 {
    (n / 0x1_0000) as u16
}

/// The lower half of a number.
pub open spec fn low(n: u32) -> u16 {
    (n % 0x1_0000) as u16
}

/// A sum of words with what goes beyond sixteen bits added back in once.
pub open spec fn carried(sum: int) -> int {
    sum % 0x1_0000 + sum / 0x1_0000
}

/// The sum of the words of an IPv4 header, all but its checksum.
pub open spec fn header_sum(total_len: u16, src: Ipv4Addr, dst: Ipv4Addr) -> int {
    0x4500 + total_len + 0x4000 + (IPV4_TTL * 0x100 + IP_PROTOCOL_UDP) + high(src.bits) + low(
        src.bits,
    ) + high(dst.bits) + low(dst.bits)
}

/// The checksum of an IPv4 header: the complement of the sum of its other
/// words, with all that goes beyond sixteen bits added back in.
pub open spec fn header_checksum(total_len: u16, src: Ipv4Addr, dst: Ipv4Addr) -> u16 {
    (0xffff - carried(carried(header_sum(total_len, src, dst)))) as u16
}

/// The Ethernet header of a frame.
pub open spec fn ethernet_header(route: UdpRoute) -> Seq<u8> {
    octets(route.dst_mac) + octets(route.src_mac) + be16_bytes(ETHERTYPE_IPV4)
}

/// The IPv4 header of a packet that is not to be fragmented.
pub open spec fn ipv4_header(route: UdpRoute, total_len: u16) -> Seq<u8> {
    be16_bytes(0x4500) + be16_bytes(total_len) + be16_bytes(0) + be16_bytes(0x4000) + seq![
        IPV4_TTL,
        IP_PROTOCOL_UDP,
    ] + be16_bytes(header_checksum(total_len, route.src_ip, route.dst_ip)) + be16_bytes(
        high(route.src_ip.bits),
    ) + be16_bytes(low(route.src_ip.bits)) + be16_bytes(high(route.dst_ip.bits)) + be16_bytes(
        low(route.dst_ip.bits),
    )
}

/// The header of a UDP datagram without a checksum.
pub open spec fn udp_header(route: UdpRoute, len: u16) -> Seq<u8> {
    be16_bytes(route.src_port) + be16_bytes(route.dst_port) + be16_bytes(len) + be16_bytes(0)
}

/// The frame that carries a payload.
pub open spec fn raw_frame(route: UdpRoute, payload: Seq<u8>) -> Seq<u8> {
    ethernet_header(route) + ipv4_header(route, (payload.len() + 28) as u16) + udp_header(
        route,
        (payload.len() + 8) as u16,
    ) + payload
}

/// Adds the two bytes of a number.
fn push_be16(bytes: &mut Vec<u8>, n: u16)
    ensures
        final(bytes)@ == old(bytes)@ + be16_bytes(n),
{
    bytes.push((n / 0x100) as u8);
    bytes.push((n % 0x100) as u8);
    assert(bytes@ =~= old(bytes)@ + be16_bytes(n));
}

/// Adds the bytes of a link-layer address.
fn push_mac(bytes: &mut Vec<u8>, mac: MacAddr)
    ensures
        final(bytes)@ == old(bytes)@ + octets(mac),
{
    bytes.push(mac.0);
    bytes.push(mac.1);
    bytes.push(mac.2);
    bytes.push(mac.3);
    bytes.push(mac.4);
    bytes.push(mac.5);
    assert(bytes@ =~= old(bytes)@ + octets(mac));
}

/// The checksum of an IPv4 header.
fn compute_header_checksum(total_len: u16, src: Ipv4Addr, dst: Ipv4Addr) -> (r: u16)
    ensures
        r == header_checksum(total_len, src, dst),
{
    let sum: u32 = 0x4500 + total_len as u32 + 0x4000 + (IPV4_TTL as u32 * 0x100
        + IP_PROTOCOL_UDP as u32) + src.bits / 0x1_0000 + src.bits % 0x1_0000 + dst.bits / 0x1_0000
        + dst.bits % 0x1_0000;
    let once: u32 = sum % 0x1_0000 + sum / 0x1_0000;
    let twice: u32 = once % 0x1_0000 + once / 0x1_0000;
    (0xffff - twice) as u16
}

/// Appends the Ethernet header.
fn push_ethernet_header(frame: &mut Vec<u8>, route: &UdpRoute)
    ensures
        final(frame)@ == old(frame)@ + ethernet_header(*route),
{
    push_mac(frame, route.dst_mac);
    push_mac(frame, route.src_mac);
    push_be16(frame, ETHERTYPE_IPV4);
    assert(frame@ =~= old(frame)@ + ethernet_header(*route));
}

/// Appends the IPv4 header.
fn push_ipv4_header(frame: &mut Vec<u8>, route: &UdpRoute, total_len: u16)
    ensures
        final(frame)@ == old(frame)@ + ipv4_header(*route, total_len),
{
    push_be16(frame, 0x4500);
    push_be16(frame, total_len);
    push_be16(frame, 0);
    push_be16(frame, 0x4000);
    frame.push(IPV4_TTL);
    frame.push(IP_PROTOCOL_UDP);
    push_be16(frame, compute_header_checksum(total_len, route.src_ip, route.dst_ip));
    push_be16(frame, (route.src_ip.bits / 0x1_0000) as u16);
    push_be16(frame, (route.src_ip.bits % 0x1_0000) as u16);
    push_be16(frame, (route.dst_ip.bits / 0x1_0000) as u16);
    push_be16(frame, (route.dst_ip.bits % 0x1_0000) as u16);
    assert(frame@ =~= old(frame)@ + ipv4_header(*route, total_len));
}

/// Appends the UDP header.
fn push_udp_header(frame: &mut Vec<u8>, route: &UdpRoute, udp_len: u16)
    ensures
        final(frame)@ == old(frame)@ + udp_header(*route, udp_len),
{
    push_be16(frame, route.src_port);
    push_be16(frame, route.dst_port);
    push_be16(frame, udp_len);
    push_be16(frame, 0);
    assert(frame@ =~= old(frame)@ + udp_header(*route, udp_len));
}

/// Builds the frame that carries a payload.
pub fn build_raw_packet(route: &UdpRoute, payload: &[u8]) -> (r: Result<Vec<u8>, PayloadTooLong>)
    ensures
        match r {
            Ok(frame) => payload@.len() <= MAX_UDP_PAYLOAD && frame@ == raw_frame(*route, payload@),
            Err(e) => payload@.len() > MAX_UDP_PAYLOAD && e.len == payload@.len(),
        },
{
    let len: usize = payload.len();
    if len > MAX_UDP_PAYLOAD {
        return Err(PayloadTooLong { len });
    }
    let total_len: u16 = (len + IPV4_HEADER_LEN + UDP_HEADER_LEN) as u16;
    let udp_len: u16 = (len + UDP_HEADER_LEN) as u16;
    let mut frame: Vec<u8> = Vec::new();
    push_ethernet_header(&mut frame, route);
    push_ipv4_header(&mut frame, route, total_len);
    push_udp_header(&mut frame, route, udp_len);
    frame.extend_from_slice(payload);
    assert(frame@ =~= raw_frame(*route, payload@));
    Ok(frame)
}

/// What was put into a frame for a port is what is taken out of it there, and
/// nothing is taken out of it at any other port.
pub proof fn law_frame_carries_payload(route: UdpRoute, payload: Seq<u8>, port: u16)
    requires
        payload.len() <= MAX_UDP_PAYLOAD,
    ensures
        udp_payload_for(raw_frame(route, payload), port) == if port == route.dst_port {
            Some(payload)
        } else {
            None
        },
{
    let frame = raw_frame(route, payload);
    let total_len = (payload.len() + 28) as u16;
    let packet = frame.subrange(14, frame.len() as int);
    let ip = ipv4_header(route, total_len);
    let udp = udp_header(route, (payload.len() + 8) as u16);
    assert(packet =~= ip + udp + payload);
    assert(frame[12] == 0x08 && frame[13] == 0x00);
    assert(packet[0] == 0x45 && packet[9] == IP_PROTOCOL_UDP);
    assert(packet[2] == total_len / 0x100 && packet[3] == total_len % 0x100);
    assert(0x45u8 & 0xf == 5) by (bit_vector);
    let datagram = ipv4_payload(packet);
    assert(datagram =~= udp + payload);
    assert(datagram[2] == route.dst_port / 0x100 && datagram[3] == route.dst_port % 0x100);
    assert(datagram.subrange(8, datagram.len() as int) =~= payload);
}

/// A frame names its sender.
pub proof fn law_frame_names_sender(route: UdpRoute, payload: Seq<u8>)
    ensures
        raw_frame(route, payload).subrange(6, 12) == octets(route.src_mac),
{
    assert(raw_frame(route, payload).subrange(6, 12) =~= octets(route.src_mac));
}

/// Carrying adds the two halves of a sum.
proof fn lemma_carried(high: int, low: int)
    requires
        0 <= low < 0x1_0000,
    ensures
        carried(high * 0x1_0000 + low) == high + low,
{
    vstd::arithmetic::div_mod::lemma_fundamental_div_mod_converse(
        high * 0x1_0000 + low,
        0x1_0000,
        high,
        low,
    );
}

/// The words of the IPv4 header of a frame, its checksum among them, add up to
/// all ones, as a receiver expects.
pub proof fn law_header_checksum_adds_up(total_len: u16, src: Ipv4Addr, dst: Ipv4Addr)
    ensures
        carried(carried(header_sum(total_len, src, dst) + header_checksum(total_len, src, dst)))
            == 0xffff,
{
    let sum = header_sum(total_len, src, dst);
    let q = sum / 0x1_0000;
    let r = sum % 0x1_0000;
    assert(0 <= sum < 10 * 0x1_0000);
    assert(0 <= q < 10 && 0 <= r < 0x1_0000 && sum == q * 0x1_0000 + r);
    lemma_carried(0, 0xffff);
    if r + q < 0x1_0000 {
        lemma_carried(0, r + q);
        assert(header_checksum(total_len, src, dst) == 0xffff - (r + q));
        lemma_carried(q, 0xffff - q);
    } else {
        lemma_carried(1, r + q - 0x1_0000);
        assert(header_checksum(total_len, src, dst) == 0xffff - (r + q - 0xffff));
        lemma_carried(q + 1, 0xfffe - q);
    }
}

} // verus!
