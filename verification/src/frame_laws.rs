//! What stands in the frames that are sent, and what is read from those that
//! arrive, told of what goes into the functions and what comes out.

use crate::addr::{Ipv4Addr, MacAddr};
use crate::dhcp::{
    address_bytes, as_read, decoded_options, law_message_reads_back, option_data, option_of,
    parse_dhcp_payload, DhcpMessage, OptionValue, OptionView,
};
use crate::ipc::{frame_msg, read_frame_len, MessageTooLong};
use crate::option_lengths::{tidied, tidy_message};
use crate::packet::{
    build_raw_packet, carried, header_checksum, header_sum, law_frame_carries_payload,
    law_header_checksum_adds_up, raw_frame, strip_udp_headers, PayloadTooLong, UdpRoute,
};
use vstd::prelude::*;

verus! {

/// The number that two bytes from `at` on spell, most significant first.
pub open spec fn word(bytes: Seq<u8>, at: int) -> int {
    bytes[at] * 0x100 + bytes[at + 1]
}

/// The number that four bytes from `at` on spell, most significant first.
pub open spec fn long_word(bytes: Seq<u8>, at: int) -> int {
    bytes[at] * 0x100_0000 + bytes[at + 1] * 0x1_0000 + bytes[at + 2] * 0x100 + bytes[at + 3]
}

/// Whether the six bytes from `at` on are those of a link-layer address.
pub open spec fn names(bytes: Seq<u8>, at: int, mac: MacAddr) -> bool {
    &&& bytes[at] == mac.0
    &&& bytes[at + 1] == mac.1
    &&& bytes[at + 2] == mac.2
    &&& bytes[at + 3] == mac.3
    &&& bytes[at + 4] == mac.4
    &&& bytes[at + 5] == mac.5
}

/// Whether `frame` carries a payload along a route: an Ethernet frame with an
/// IPv4 packet that is not to be fragmented, and in it a UDP datagram without a
/// checksum.
pub open spec fn is_frame(frame: Seq<u8>, route: UdpRoute, payload: Seq<u8>) -> bool {
    &&& frame.len() == 42 + payload.len()
    &&& names(frame, 0, route.dst_mac)
    &&& names(frame, 6, route.src_mac)
    &&& word(frame, 12) == 0x0800
    &&& word(frame, 14) == 0x4500
    &&& word(frame, 16) == 28 + payload.len()
    &&& word(frame, 18) == 0
    &&& word(frame, 20) == 0x4000
    &&& frame[22] == 64
    &&& frame[23] == 17
    &&& long_word(frame, 26) == route.src_ip.bits
    &&& long_word(frame, 30) == route.dst_ip.bits
    &&& word(frame, 34) == route.src_port
    &&& word(frame, 36) == route.dst_port
    &&& word(frame, 38) == 8 + payload.len()
    &&& word(frame, 40) == 0
    &&& frame.skip(42) == payload
}

/// The sum of the ten words of the IPv4 header of a frame.
pub open spec fn ipv4_sum(frame: Seq<u8>) -> int {
    word(frame, 14) + word(frame, 16) + word(frame, 18) + word(frame, 20) + word(frame, 22) + word(
        frame,
        24,
    ) + word(frame, 26) + word(frame, 28) + word(frame, 30) + word(frame, 32)
}

/// A frame is laid out as it should be.
pub proof fn lemma_frame(route: UdpRoute, payload: Seq<u8>)
    requires
        payload.len() <= 65507,
    ensures
        is_frame(raw_frame(route, payload), route, payload),
        word(raw_frame(route, payload), 24) == header_checksum(
            (28 + payload.len()) as u16,
            route.src_ip,
            route.dst_ip,
        ),
        ipv4_sum(raw_frame(route, payload)) == header_sum(
            (28 + payload.len()) as u16,
            route.src_ip,
            route.dst_ip,
        ) + header_checksum((28 + payload.len()) as u16, route.src_ip, route.dst_ip),
{
    let frame = raw_frame(route, payload);
    assert(frame.skip(42) =~= payload);
    let (s, d) = (route.src_ip.bits, route.dst_ip.bits);
    assert(word(frame, 26) == s / 0x1_0000 && word(frame, 28) == s % 0x1_0000);
    assert(word(frame, 30) == d / 0x1_0000 && word(frame, 32) == d % 0x1_0000);
    assert(long_word(frame, 26) == word(frame, 26) * 0x1_0000 + word(frame, 28));
    assert(long_word(frame, 30) == word(frame, 30) * 0x1_0000 + word(frame, 32));
}

proof fn lemma_carried_keeps_remainder(sum: int)
    requires
        sum >= 0,
    ensures
        carried(sum) >= 0,
        carried(sum) % 0xffff == sum % 0xffff,
{
    let (q, r) = (sum / 0x1_0000, sum % 0x1_0000);
    assert(sum == q * 0xffff + (q + r));
    vstd::arithmetic::div_mod::lemma_mod_multiples_vanish(q, q + r, 0xffff);
}

/// A payload is put into a frame for its route, as it is; one that is longer than
/// a datagram can hold is refused. The words of the IPv4 header add up as a
/// receiver expects of a header that arrived whole.
pub proof fn law_frame_is_built_for_its_route(
    route: UdpRoute,
    payload: &[u8],
    r: Result<Vec<u8>, PayloadTooLong>,
)
    requires
        call_ensures(build_raw_packet, (&route, payload), r),
    ensures
        payload@.len() > 65507 ==> (r matches Err(e) && e.len == payload@.len()),
        payload@.len() <= 65507 ==> {
            &&& r matches Ok(frame)
            &&& is_frame(frame@, route, payload@)
            &&& ipv4_sum(frame@) > 0
            &&& ipv4_sum(frame@) % 0xffff == 0
        },
{
    if payload@.len() <= 65507 {
        lemma_frame(route, payload@);
        let total = (28 + payload@.len()) as u16;
        let sum = header_sum(total, route.src_ip, route.dst_ip) + header_checksum(
            total,
            route.src_ip,
            route.dst_ip,
        );
        law_header_checksum_adds_up(total, route.src_ip, route.dst_ip);
        lemma_carried_keeps_remainder(sum);
        lemma_carried_keeps_remainder(carried(sum));
    }
}

/// What was put into a frame is taken out of it at the port that it was sent to,
/// and at no other.
pub proof fn law_payload_is_taken_out_at_its_port(
    route: UdpRoute,
    payload: &[u8],
    r: Result<Vec<u8>, PayloadTooLong>,
    seen: &[u8],
    port: u16,
    taken: Option<Vec<u8>>,
)
    requires
        call_ensures(build_raw_packet, (&route, payload), r),
        r matches Ok(frame) && seen@ == frame@,
        call_ensures(strip_udp_headers, (seen, port), taken),
    ensures
        port == route.dst_port ==> (taken matches Some(bytes) && bytes@ == payload@),
        port != route.dst_port ==> taken is None,
{
    law_frame_carries_payload(route, payload@, port);
}

/// Only what an IPv4 packet with a UDP datagram carries is taken out of a frame.
pub proof fn law_other_frames_carry_nothing(frame: &[u8], port: u16, r: Option<Vec<u8>>)
    requires
        call_ensures(strip_udp_headers, (frame, port), r),
        frame@.len() < 42 || word(frame@, 12) != 0x0800 || frame@[23] != 17,
    ensures
        r is None,
{
    if frame@.len() >= 14 {
        let packet = frame@.subrange(14, frame@.len() as int);
        assert(packet.len() >= 20 ==> packet[9] == frame@[23]);
    }
}

/// A DHCP message is read from the payload that a frame carries to a port, its
/// fields from their places; what is too short for one is none.
pub proof fn law_message_is_read_from_its_places(
    frame: &[u8],
    port: u16,
    payload: Option<Vec<u8>>,
    r: Option<DhcpMessage>,
)
    requires
        call_ensures(strip_udp_headers, (frame, port), payload),
        call_ensures(parse_dhcp_payload, (frame, port), r),
    ensures
        r is Some <==> payload is Some && payload->0@.len() >= 240,
        r matches Some(m) ==> {
            let bytes = payload->0@;
            &&& m.opcode == bytes[0]
            &&& m.hlen == bytes[2]
            &&& m.xid == long_word(bytes, 4)
            &&& m.flags == word(bytes, 10)
            &&& m.ciaddr.bits == long_word(bytes, 12)
            &&& m.yiaddr.bits == long_word(bytes, 16)
            &&& m.siaddr.bits == long_word(bytes, 20)
            &&& m.giaddr.bits == long_word(bytes, 24)
            &&& bytes[2] <= 16 ==> m.chaddr@ == bytes.subrange(28, 28 + bytes[2])
            &&& bytes[2] > 16 ==> m.chaddr@.len() == 0
        },
{
}

proof fn lemma_option_of(options: Seq<(u8, OptionView)>, code: u8)
    ensures
        match option_of(options, code) {
            Some(value) => exists|i: int|
                0 <= i < options.len() && #[trigger] options[i] == (code, value) && forall|j: int|
                    0 <= j < i ==> (#[trigger] options[j]).0 != code,
            None => forall|i: int| 0 <= i < options.len() ==> (#[trigger] options[i]).0 != code,
        },
    decreases options.len(),
{
    if options.len() > 0 && options[0].0 != code {
        let rest = options.drop_first();
        lemma_option_of(rest, code);
        match option_of(rest, code) {
            Some(value) => {
                let i = choose|i: int|
                    0 <= i < rest.len() && #[trigger] rest[i] == (code, value) && forall|j: int|
                        0 <= j < i ==> (#[trigger] rest[j]).0 != code;
                assert(options[i + 1] == (code, value));
                assert forall|j: int| 0 <= j < i + 1 implies (#[trigger] options[j]).0 != code by {
                    if j > 0 {
                        assert(rest[j - 1] == options[j]);
                    }
                }
            },
            None => {
                assert forall|i: int| 0 <= i < options.len() implies (#[trigger] options[i]).0
                    != code by {
                    if i > 0 {
                        assert(rest[i - 1] == options[i]);
                    }
                }
            },
        }
    } else if options.len() > 0 {
        assert(options[0] == (code, options[0].1));
    }
}

/// What an option of a message holds is what stands under its code first.
pub proof fn law_option_is_what_stands_under_its_code(
    m: DhcpMessage,
    code: u8,
    r: Option<&OptionValue>,
)
    requires
        call_ensures(DhcpMessage::option, (&m, code), r),
    ensures
        match r {
            Some(value) => exists|i: int|
                0 <= i < m@.options.len() && #[trigger] m@.options[i] == (code, value@) && forall|
                    j: int,
                |
                    0 <= j < i ==> (#[trigger] m@.options[j]).0 != code,
            None => forall|i: int|
                0 <= i < m@.options.len() ==> (#[trigger] m@.options[i]).0 != code,
        },
{
    lemma_option_of(m@.options, code);
}

/// What a message says in its best known options: its type, the server that it is
/// about, and the address that is asked for.
pub proof fn law_options_have_their_codes(
    m: DhcpMessage,
    kind: Option<u8>,
    server: Option<Ipv4Addr>,
    requested: Option<Ipv4Addr>,
    broadcast: bool,
)
    requires
        call_ensures(DhcpMessage::message_type, (&m,), kind),
        call_ensures(DhcpMessage::server_identifier, (&m,), server),
        call_ensures(DhcpMessage::requested_ip, (&m,), requested),
        call_ensures(DhcpMessage::broadcast, (&m,), broadcast),
    ensures
        match option_of(m@.options, 53) {
            Some(OptionView::Kind(k)) => kind == Some(k),
            _ => kind is None,
        },
        match option_of(m@.options, 54) {
            Some(OptionView::Address(ip)) => server == Some(ip),
            _ => server is None,
        },
        match option_of(m@.options, 50) {
            Some(OptionView::Address(ip)) => requested == Some(ip),
            _ => requested is None,
        },
        broadcast <==> m.flags >= 0x8000,
{
}

/// An option that is set is found again, and the others are as they were.
pub proof fn law_set_option_is_found(
    m: &mut DhcpMessage,
    code: u8,
    value: OptionValue,
    r: (),
    other: u8,
)
    requires
        call_ensures(DhcpMessage::insert, (m, code, value), r),
    ensures
        option_of(final(m)@.options, code) == Some(value@),
        other != code ==> option_of(final(m)@.options, other) == option_of(old(m)@.options, other),
        final(m).xid == old(m).xid,
        final(m).chaddr@ == old(m).chaddr@,
        final(m).opcode == old(m).opcode,
{
    crate::dhcp::law_option_reads_back(old(m)@.options, code, value@, other);
    assert(final(m)@.chaddr == old(m)@.chaddr);
}

/// A message between two processes is preceded by its length in four bytes, most
/// significant first, and is otherwise sent as it is; one longer than 65536 bytes
/// is not sent.
pub proof fn law_message_is_preceded_by_its_length(
    message: Vec<u8>,
    r: Result<Vec<u8>, MessageTooLong>,
)
    requires
        call_ensures(frame_msg, (&message,), r),
    ensures
        message@.len() > 65536 ==> (r matches Err(e) && e.len == message@.len()),
        message@.len() <= 65536 ==> (r matches Ok(bytes) && bytes@.len() == 4 + message@.len()
            && long_word(bytes@, 0) == message@.len() && bytes@.skip(4) == message@),
{
    if message@.len() <= 65536 {
        crate::ipc::law_frame_round_trip(message@);
        let bytes = r->Ok_0@;
        assert(bytes.skip(4) =~= message@);
        let prefix = bytes.take(4);
        assert(prefix[0] == bytes[0] && prefix[1] == bytes[1] && prefix[2] == bytes[2] && prefix[3]
            == bytes[3]);
    }
}

/// The length of a message is read from the four bytes before it, most
/// significant first; more than 65536 bytes are not read.
pub proof fn law_length_is_read_before_the_message(
    prefix: [u8; 4],
    r: Result<usize, MessageTooLong>,
)
    requires
        call_ensures(read_frame_len, (&prefix,), r),
    ensures
        long_word(prefix@, 0) <= 65536 ==> (r matches Ok(len) && len == long_word(prefix@, 0)),
        long_word(prefix@, 0) > 65536 ==> (r matches Err(e) && e.len == long_word(prefix@, 0)),
{
}

/// The payload of a datagram is what stands behind its headers, up to the end that
/// the packet states, whatever options its header has and whatever is added to it
/// on the way.
pub proof fn law_payload_stands_behind_the_headers(
    frame: &[u8],
    port: u16,
    r: Option<Vec<u8>>,
    words: u8,
)
    requires
        call_ensures(strip_udp_headers, (frame, port), r),
        frame@.len() >= 42,
        word(frame@, 12) == 0x0800,
        frame@[23] == 17,
        words == frame@[14] & 0xf,
        words >= 5,
        14 + 4 * words + 8 <= 14 + word(frame@, 16) <= frame@.len(),
    ensures
        r is Some <==> word(frame@, 14 + 4 * words + 2) == port,
        r matches Some(payload) ==> payload@ == frame@.subrange(
            14 + 4 * words + 8,
            14 + word(frame@, 16),
        ),
{
    let packet = frame@.subrange(14, frame@.len() as int);
    let (start, end) = (4 * words, word(frame@, 16));
    assert(word(packet, 2) == end && packet[0] == frame@[14] && packet[9] == frame@[23]);
    let datagram = crate::packet::ipv4_payload(packet);
    assert(datagram == packet.subrange(start, end));
    assert(word(datagram, 2) == word(frame@, 14 + start + 2));
    assert(datagram.subrange(8, datagram.len() as int) =~= frame@.subrange(14 + start + 8, 14 + end));
}

/// A new message is a request that says nothing.
pub proof fn law_new_message_is_an_empty_request(r: DhcpMessage)
    requires
        call_ensures(DhcpMessage::new, (), r),
    ensures
        r.opcode == 1,
        r.hlen == 0,
        r.xid == 0,
        r.flags == 0,
        r.ciaddr.bits == 0,
        r.yiaddr.bits == 0,
        r.siaddr.bits == 0,
        r.giaddr.bits == 0,
        r.chaddr@.len() == 0,
        r.options@.len() == 0,
{
    assert(r@.chaddr.len() == 0);
}

proof fn lemma_addresses(ips: Seq<Ipv4Addr>)
    ensures
        address_bytes(ips).len() == 4 * ips.len(),
        forall|i: int|
            0 <= i < ips.len() ==> long_word(address_bytes(ips), 4 * i) == (#[trigger] ips[i]).bits,
    decreases ips.len(),
{
    if ips.len() > 0 {
        let front = ips.drop_last();
        lemma_addresses(front);
        let bytes = address_bytes(ips);
        assert forall|i: int| 0 <= i < ips.len() implies long_word(bytes, 4 * i) == (
        #[trigger] ips[i]).bits by {
            if i < front.len() {
                assert(front[i] == ips[i]);
                assert(bytes[4 * i + 0] == address_bytes(front)[4 * i + 0]);
                assert(bytes[4 * i + 1] == address_bytes(front)[4 * i + 1]);
                assert(bytes[4 * i + 2] == address_bytes(front)[4 * i + 2]);
                assert(bytes[4 * i + 3] == address_bytes(front)[4 * i + 3]);
            }
        }
    }
}

/// What an option holds is spelt in bytes: numbers and addresses with the most
/// significant byte first, lists one after another, and texts in UTF-8.
pub proof fn law_values_are_spelt_in_bytes(value: OptionValue, r: Vec<u8>)
    requires
        call_ensures(option_data, (&value,), r),
    ensures
        match value {
            OptionValue::Kind(kind) => r@ == seq![kind],
            OptionValue::Address(ip) => r@.len() == 4 && long_word(r@, 0) == ip.bits,
            OptionValue::Addresses(ips) => r@.len() == 4 * ips@.len() && forall|i: int|
                0 <= i < ips@.len() ==> long_word(r@, 4 * i) == (#[trigger] ips@[i]).bits,
            OptionValue::Seconds(secs) => r@.len() == 4 && long_word(r@, 0) == secs,
            OptionValue::Text(text) => r@ == vstd::utf8::encode_utf8(text@),
            OptionValue::Codes(codes) => r@ == codes@,
            OptionValue::Other => r@.len() == 0,
        },
{
    if let OptionValue::Addresses(ips) = value {
        lemma_addresses(ips@);
    }
}

/// A message is written with its fields in their places.
pub proof fn law_message_is_written_to_its_places(m: DhcpMessage, r: Vec<u8>)
    requires
        call_ensures(DhcpMessage::encode, (&m,), r),
    ensures
        r@.len() >= 240,
        r@[0] == m.opcode,
        r@[2] == m.chaddr@.len(),
        long_word(r@, 4) == m.xid,
        word(r@, 10) == m.flags,
        long_word(r@, 12) == m.ciaddr.bits,
        long_word(r@, 16) == m.yiaddr.bits,
        long_word(r@, 20) == m.siaddr.bits,
        long_word(r@, 24) == m.giaddr.bits,
        r@.subrange(28, 28 + m.chaddr@.len() as int) == m.chaddr@,
{
}

/// Whether a value is of the kind that is written under a code.
pub open spec fn is_usual(code: u8, value: OptionView) -> bool {
    match value {
        OptionView::Kind(_) => code == 53,
        OptionView::Address(_) => code == 1 || code == 50 || code == 54,
        OptionView::Addresses(ips) => (code == 3 || code == 6) && ips.len() > 0,
        OptionView::Seconds(_) => code == 51,
        OptionView::Codes(codes) => code == 55 && codes.len() > 0,
        _ => false,
    }
}

/// A message that is written is read back as it was: its fields, its hardware
/// address and what its options hold.
pub proof fn law_written_message_is_read_back(
    m: DhcpMessage,
    bytes: Vec<u8>,
    seen: &[u8],
    r: Option<DhcpMessage>,
    code: u8,
)
    requires
        call_ensures(DhcpMessage::encode, (&m,), bytes),
        seen@ == bytes@,
        call_ensures(DhcpMessage::decode, (seen,), r),
        m.chaddr@.len() <= 16,
        forall|i: int|
            0 <= i < m@.options.len() ==> is_usual(
                (#[trigger] m@.options[i]).0,
                m@.options[i].1,
            ),
        forall|i: int, j: int|
            0 <= i < j < m@.options.len() ==> (#[trigger] m@.options[i]).0 != (
            #[trigger] m@.options[j]).0,
    ensures
        r matches Some(read) && read.opcode == m.opcode && read.hlen == m.chaddr@.len()
            && read.xid == m.xid && read.flags == m.flags && read.ciaddr == m.ciaddr && read.yiaddr
            == m.yiaddr && read.siaddr == m.siaddr && read.giaddr == m.giaddr && read.chaddr@
            == m.chaddr@ && match option_of(m@.options, code) {
            Some(OptionView::Codes(_)) => option_of(read@.options, code) is Some,
            held => option_of(read@.options, code) == held,
        },
{
    assert forall|i: int| 0 <= i < m@.options.len() implies crate::dhcp::fits_option(
        (#[trigger] m@.options[i]).0,
        m@.options[i].1,
    ) by {
        assert(is_usual(m@.options[i].0, m@.options[i].1));
    }
    law_message_reads_back(m@, bytes@);
    let read = r->0;
    assert(option_of(read@.options, code) == as_read(option_of(m@.options, code)));
    assert(read@.chaddr == m@.chaddr);
}

/// Whether an option should have data of this length.
pub open spec fn is_usual_len(code: u8, len: int) -> bool {
    match code {
        80 => len == 0,
        81 => len >= 3,
        94 => len == 3,
        152 => len == 4,
        153 => len == 4,
        154 => len == 4,
        155 => len == 4,
        _ => true,
    }
}

/// The length that the data of an option is cut to where it is longer than that.
pub open spec fn greatest_len(code: u8) -> int {
    match code {
        80 => 0,
        94 => 3,
        152 => 4,
        153 => 4,
        154 => 4,
        155 => 4,
        _ => 255,
    }
}

/// The last option of a message is handed on as it is where its data has a length
/// that it should have, and is otherwise cut to that length; where it has too
/// little data, it is left out together with what comes after it.
pub proof fn law_last_option_is_mended(
    payload: &[u8],
    r: Vec<u8>,
    code: u8,
    data: Seq<u8>,
    rest: Seq<u8>,
)
    requires
        call_ensures(tidy_message, (payload,), r),
        payload@.len() >= 240,
        code != 0,
        code != 255,
        data.len() <= 255,
        payload@.skip(240) == seq![code, data.len() as u8] + data + rest,
        rest.len() == 0 || rest[0] == 255,
    ensures
        is_usual_len(code, data.len() as int) ==> r@ == payload@,
        data.len() > greatest_len(code) ==> r@ == payload@.take(240) + seq![
            code,
            greatest_len(code) as u8,
        ] + data.take(greatest_len(code)) + rest,
        !is_usual_len(code, data.len() as int) && data.len() <= greatest_len(code) ==> r@
            == payload@.take(240),
{
    let options = payload@.skip(240);
    let piece = seq![code, data.len() as u8] + data;
    let none = Seq::<u8>::empty();
    assert(options[0] == code && options[1] == data.len());
    assert(options.take(2 + data.len() as int) =~= piece);
    assert(options.subrange(2, 2 + data.len() as int) =~= data);
    assert(options.skip(2 + data.len() as int) =~= rest);
    reveal_with_fuel(tidied, 2);
    assert(payload@ =~= payload@.take(240) + (piece + rest));
    assert(tidied(options, 0, none, none) == none + tidied(rest, code, piece, data));
    let mended = crate::option_lengths::mended(code, piece, data);
    match mended {
        Some(option) => {
            assert(r@ =~= payload@.take(240) + (option + rest));
            assert(r@ =~= payload@.take(240) + option + rest);
            if data.len() > greatest_len(code) {
                assert(r@ =~= payload@.take(240) + seq![code, greatest_len(code) as u8] + data.take(
                    greatest_len(code),
                ) + rest);
            }
        },
        None => {
            assert(r@ =~= payload@.take(240));
        },
    }
}

/// A message without options is handed on as it is.
pub proof fn law_message_without_options_is_kept(payload: &[u8], r: Vec<u8>)
    requires
        call_ensures(tidy_message, (payload,), r),
        payload@.len() >= 240,
        payload@.len() == 240 || payload@[240] == 255,
    ensures
        r@ == payload@,
{
    assert(payload@.take(240) + (Seq::<u8>::empty() + payload@.skip(240)) =~= payload@);
}

/// Options are mended one by one: one that has a length that it should have is
/// handed on as it is, and what follows it as if it came first.
pub proof fn law_options_are_mended_one_by_one(
    payload: &[u8],
    r: Vec<u8>,
    without: &[u8],
    s: Vec<u8>,
    code: u8,
    data: Seq<u8>,
    rest: Seq<u8>,
)
    requires
        call_ensures(tidy_message, (payload,), r),
        call_ensures(tidy_message, (without,), s),
        payload@.len() >= 240,
        without@.len() >= 240,
        code != 0,
        code != 255,
        data.len() <= 255,
        is_usual_len(code, data.len() as int),
        payload@.skip(240) == seq![code, data.len() as u8] + data + rest,
        without@.skip(240) == rest,
        rest.len() > 0 ==> rest[0] != code,
    ensures
        r@ == payload@.take(240) + seq![code, data.len() as u8] + data + s@.skip(240),
{
    let options = payload@.skip(240);
    let piece = seq![code, data.len() as u8] + data;
    let none = Seq::<u8>::empty();
    assert(options[0] == code && options[1] == data.len());
    assert(options.take(2 + data.len() as int) =~= piece);
    assert(options.subrange(2, 2 + data.len() as int) =~= data);
    assert(options.skip(2 + data.len() as int) =~= rest);
    assert(tidied(options, 0, none, none) =~= tidied(rest, code, piece, data));
    let after = tidied(rest, 0, none, none);
    assert(s@.skip(240) =~= after);
    assert(tidied(rest, code, piece, data) =~= piece + after) by {
        if rest.len() > 0 && rest[0] == 0 {
            let next = tidied(rest.skip(1), 0, none, none);
            assert(after =~= seq![0u8] + next) by {
                assert(none + (seq![0u8] + next) =~= seq![0u8] + next);
            }
        } else {
            assert(none + after =~= after);
        }
    }
    assert(r@ =~= payload@.take(240) + seq![code, data.len() as u8] + data + after);
}

/// The data of an option that comes in two pieces is taken together.
pub proof fn law_pieces_of_an_option_are_taken_together(
    payload: &[u8],
    r: Vec<u8>,
    code: u8,
    first: Seq<u8>,
    second: Seq<u8>,
    rest: Seq<u8>,
)
    requires
        call_ensures(tidy_message, (payload,), r),
        payload@.len() >= 240,
        code != 0,
        code != 255,
        first.len() <= 255,
        second.len() <= 255,
        payload@.skip(240) == seq![code, first.len() as u8] + first + seq![code, second.len() as u8]
            + second + rest,
        rest.len() == 0 || rest[0] == 255,
    ensures
        is_usual_len(code, (first + second).len() as int) ==> r@ == payload@,
        greatest_len(code) < 255 && first.len() + second.len() > greatest_len(code) ==> r@
            == payload@.take(240) + seq![code, greatest_len(code) as u8] + (first + second).take(
            greatest_len(code),
        ) + rest,
        !is_usual_len(code, (first + second).len() as int) && first.len() + second.len()
            <= greatest_len(code) ==> r@ == payload@.take(240),
{
    let options = payload@.skip(240);
    let one = seq![code, first.len() as u8] + first;
    let two = seq![code, second.len() as u8] + second;
    let none = Seq::<u8>::empty();
    let left = two + rest;
    let (n, m) = (2 + first.len() as int, 2 + second.len() as int);
    assert(options =~= one + left);
    assert(options[0] == code && options[1] == first.len());
    assert(options.take(n) =~= one);
    assert(options.subrange(2, n) =~= first);
    assert(options.skip(n) =~= left);
    assert(left[0] == code && left[1] == second.len());
    assert(left.take(m) =~= two);
    assert(left.subrange(2, m) =~= second);
    assert(left.skip(m) =~= rest);
    let data = first + second;
    assert(tidied(options, 0, none, none) =~= tidied(left, code, one, first));
    assert(tidied(left, code, one, first) == tidied(rest, code, one + two, data));
    assert(payload@ =~= payload@.take(240) + (one + two + rest));
    match crate::option_lengths::mended(code, one + two, data) {
        Some(option) => {
            assert(r@ =~= payload@.take(240) + (option + rest));
            if greatest_len(code) < 255 && data.len() > greatest_len(code) {
                assert(r@ =~= payload@.take(240) + seq![code, greatest_len(code) as u8] + data.take(
                    greatest_len(code),
                ) + rest);
            }
        },
        None => {
            assert(r@ =~= payload@.take(240));
        },
    }
}

/// The options of a message are those that are read from it once they have been
/// mended.
pub proof fn law_mended_options_are_read(
    payload: &[u8],
    mended: Vec<u8>,
    r: Option<DhcpMessage>,
)
    requires
        payload@.len() >= 240,
        call_ensures(tidy_message, (payload,), mended),
        call_ensures(DhcpMessage::decode, (payload,), r),
    ensures
        r matches Some(m) && m@.options == decoded_options(mended@),
{
}

} // verus!
