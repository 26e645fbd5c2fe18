//! How the router obtains an address on the WAN and keeps it, told of what goes
//! into the functions of the client and what comes out.

use crate::addr::{Ipv4Addr, MacAddr};
use crate::dhcp::{
    as_read, decoded_message, law_frame_carries_message, law_message_reads_back, option_of,
    parse_dhcp_payload, DhcpMessage, OptionView,
};
use crate::dhcp_client::{
    build_discover_message, build_request_message, calculate_next_delay, calculate_renewal_params,
    client_frame, client_route, copy_addresses, handle_ack_result, next_action, on_message,
    on_timeout, parse_ack_nak, parse_lease_options, parse_offer, request_message, start_discover,
    ClientAction, ClientPhase, DhcpAck, DhcpError, DhcpOffer, LeaseOptions, MessageOutcome,
    ParseAckResult,
};
use crate::packet::{raw_frame, MAX_UDP_PAYLOAD};
use vstd::prelude::*;

verus! {

/// The whole seconds from `since` to `now`.
pub open spec fn seconds(since: u64, now: u64) -> int {
    (now - since) / 1_000_000_000
}

/// Whether `now` is not before `since`, and not so much later that the seconds
/// between them cannot be counted in 32 bits.
pub open spec fn is_after(since: u64, now: u64) -> bool {
    since <= now && seconds(since, now) <= u32::MAX
}

/// Whether `secs` is the time between two requests when `left` seconds are left:
/// half of them, but at least a minute while there is more than a minute, and at
/// least a second.
pub open spec fn is_pause(secs: int, left: int) -> bool {
    &&& secs >= 1
    &&& secs >= left / 2
    &&& left > 60 ==> secs >= 60
    &&& secs == left / 2 || secs == 60 && left > 60 || secs == 1 && left <= 60
}

/// When the time is up up to which requests are spread, in seconds since the
/// lease was granted: at first seven eighths of the lease, then all of it.
pub open spec fn next_deadline(lease_secs: u32, passed: int) -> int {
    if passed < lease_secs * 7 / 8 {
        lease_secs * 7 / 8
    } else {
        lease_secs as int
    }
}

/// Whether a message asks for more time on the address `ip` for the client with
/// the given hardware address.
pub open spec fn asks_for_more_time(message: DhcpMessage, mac: MacAddr, xid: u32, ip: Ipv4Addr) -> bool {
    &&& message.opcode == 1
    &&& message.xid == xid
    &&& message.ciaddr == ip
    &&& message.hlen == 6
    &&& message.chaddr@ == seq![mac.0, mac.1, mac.2, mac.3, mac.4, mac.5]
    &&& option_of(message@.options, 53) == Some(OptionView::Kind(3))
    &&& ip.bits != 0 ==> message.flags == 0 && option_of(message@.options, 50) is None && option_of(
        message@.options,
        54,
    ) is None
}

proof fn lemma_request_options(
    mac: MacAddr,
    xid: u32,
    requested: Ipv4Addr,
    server: Option<Ipv4Addr>,
    ciaddr: Ipv4Addr,
)
    ensures
        ({
            let options = request_message(mac, xid, requested, server, ciaddr).options;
            &&& option_of(options, 53) == Some(OptionView::Kind(3))
            &&& ciaddr.bits != 0 ==> option_of(options, 50) is None && option_of(options, 54) is None
            &&& ciaddr.bits == 0 ==> option_of(options, 50) == Some(OptionView::Address(requested))
            &&& ciaddr.bits == 0 ==> option_of(options, 54) == match server {
                Some(ip) => Some(OptionView::Address(ip)),
                None => None,
            }
        }),
{
    reveal_with_fuel(option_of, 4);
}

/// A client with an address leaves its server alone for half its lease, but says
/// that it is alive every three seconds; then it begins to renew the lease. Once
/// the lease has run out, the address is given up.
pub proof fn law_lease_is_renewed_after_half_its_time(
    ack: DhcpAck,
    bound_at: u64,
    mac: MacAddr,
    now: u64,
    r: (ClientPhase, ClientAction),
)
    requires
        call_ensures(next_action, (ClientPhase::Bound { ack, bound_at }, mac, now), r),
        is_after(bound_at, now),
    ensures
        ({
            let passed = seconds(bound_at, now);
            if passed >= ack.lease_secs {
                r.1 is Fail
            } else if passed < ack.lease_secs / 2 {
                &&& r.0 == (ClientPhase::Bound { ack, bound_at })
                &&& r.1 matches ClientAction::Sleep { secs }
                &&& 1 <= secs <= 3
                &&& passed + secs <= ack.lease_secs / 2
                &&& secs == 3 || passed + secs == ack.lease_secs / 2
            } else {
                &&& r.0 matches ClientPhase::Renew { ack: kept, bound_at: at, sent_at, .. }
                &&& kept == ack
                &&& at == bound_at
                &&& sent_at is None
                &&& r.1 is Proceed
            }
        }),
{
}

/// While a lease is renewed, a request is sent at once, and again whenever the
/// last one has gone unanswered for as long as the pause that goes with the time
/// left. It goes to the server of the lease until seven eighths of the lease have
/// passed, and to everybody after that. Until the next one is due, the client
/// listens. Once the lease has run out, the address is given up.
pub proof fn law_unanswered_renewal_is_repeated(
    ack: DhcpAck,
    bound_at: u64,
    xid: u32,
    sent_at: Option<u64>,
    mac: MacAddr,
    now: u64,
    r: (ClientPhase, ClientAction),
    pause: int,
)
    requires
        call_ensures(
            next_action,
            (ClientPhase::Renew { ack, bound_at, xid, sent_at }, mac, now),
            r,
        ),
        is_after(bound_at, now),
        sent_at matches Some(at) ==> is_after(at, now),
        is_pause(
            pause,
            next_deadline(ack.lease_secs, seconds(bound_at, now)) - seconds(bound_at, now),
        ),
    ensures
        ({
            let passed = seconds(bound_at, now);
            if passed >= ack.lease_secs {
                r.1 is Fail
            } else if sent_at is None || seconds(sent_at->0, now) >= pause {
                &&& r.0 == (ClientPhase::Renew { ack, bound_at, xid, sent_at: Some(now) })
                &&& r.1 matches ClientAction::SendAndListen { message, dest_ip, listen_secs }
                &&& asks_for_more_time(message, mac, xid, ack.ip)
                &&& passed >= ack.lease_secs * 7 / 8 || ack.server_ip is None ==> dest_ip.bits
                    == 0xffff_ffff
                &&& passed < ack.lease_secs * 7 / 8 && ack.server_ip is Some ==> Some(dest_ip)
                    == ack.server_ip
                &&& listen_secs == pause
            } else {
                &&& r.0 == (ClientPhase::Renew { ack, bound_at, xid, sent_at })
                &&& r.1 matches ClientAction::Listen { listen_secs }
                &&& listen_secs == pause
            }
        }),
{
    lemma_request_options(mac, xid, ack.ip, None, ack.ip);
}

/// A lease that its server does not renew is asked of everybody before it runs
/// out: with two seconds or more left after seven eighths of it, the client
/// either asks everybody at once, or listens for less than what is left and then
/// asks everybody.
pub proof fn law_everybody_is_asked_before_the_end(
    ack: DhcpAck,
    bound_at: u64,
    xid: u32,
    sent_at: Option<u64>,
    mac: MacAddr,
    now: u64,
    r: (ClientPhase, ClientAction),
    later: u64,
    r2: (ClientPhase, ClientAction),
)
    requires
        call_ensures(
            next_action,
            (ClientPhase::Renew { ack, bound_at, xid, sent_at }, mac, now),
            r,
        ),
        is_after(bound_at, now),
        sent_at matches Some(at) ==> is_after(at, now),
        seconds(bound_at, now) >= ack.lease_secs * 7 / 8,
        seconds(bound_at, now) + 2 <= ack.lease_secs,
        r.1 matches ClientAction::Listen { listen_secs } ==> {
            &&& call_ensures(next_action, (r.0, mac, later), r2)
            &&& later >= now + listen_secs * 1_000_000_000
            &&& seconds(bound_at, later) < ack.lease_secs
            &&& sent_at matches Some(at) ==> seconds(at, later) <= u32::MAX
        },
    ensures
        match r.1 {
            ClientAction::SendAndListen { message, dest_ip, .. } => asks_for_more_time(
                message,
                mac,
                xid,
                ack.ip,
            ) && dest_ip.bits == 0xffff_ffff,
            ClientAction::Listen { listen_secs } => {
                &&& 0 < listen_secs < ack.lease_secs - seconds(bound_at, now)
                &&& r2.1 matches ClientAction::SendAndListen { message, dest_ip, .. }
                &&& asks_for_more_time(message, mac, xid, ack.ip)
                &&& dest_ip.bits == 0xffff_ffff
            },
            _ => false,
        },
{
    lemma_request_options(mac, xid, ack.ip, None, ack.ip);
    let left = ack.lease_secs - seconds(bound_at, now);
    if let ClientAction::Listen { listen_secs } = r.1 {
        let at = sent_at->0;
        assert(seconds(bound_at, later) >= seconds(bound_at, now) + listen_secs) by {
            let (a, b, s) = (later - bound_at, now - bound_at, listen_secs as int);
            assert(a / 1_000_000_000 >= b / 1_000_000_000 + s) by (nonlinear_arith)
                requires
                    a >= b + s * 1_000_000_000,
            ;
        }
        assert(seconds(at, later) >= listen_secs) by {
            let (a, s) = (later - at, listen_secs as int);
            assert(a / 1_000_000_000 >= s) by (nonlinear_arith)
                requires
                    a >= s * 1_000_000_000,
            ;
        }
    }
}

/// How a renewal goes on with the time that has passed: how long to wait, whom to
/// ask, and whether anybody may answer.
pub proof fn law_renewal_follows_the_time(
    passed: u32,
    t2_secs: u32,
    lease_secs: u32,
    server_ip: Option<Ipv4Addr>,
    r: (u32, Ipv4Addr, bool),
)
    requires
        call_ensures(calculate_renewal_params, (passed, t2_secs, lease_secs, server_ip), r),
        passed <= lease_secs,
    ensures
        r.2 <==> passed >= t2_secs,
        passed < t2_secs ==> is_pause(r.0 as int, t2_secs - passed),
        passed >= t2_secs ==> is_pause(r.0 as int, lease_secs - passed),
        passed >= t2_secs || server_ip is None ==> r.1.bits == 0xffff_ffff,
        passed < t2_secs && server_ip is Some ==> Some(r.1) == server_ip,
{
}

/// A client without an address asks everybody for servers, over and over, in the
/// exchange that it chose and under its own hardware address.
pub proof fn law_servers_are_looked_for(
    xid: u32,
    delay: u32,
    mac: MacAddr,
    now: u64,
    r: (ClientPhase, ClientAction),
)
    requires
        call_ensures(
            next_action,
            (ClientPhase::Discover { xid, retry_delay_secs: delay }, mac, now),
            r,
        ),
    ensures
        r.0 == (ClientPhase::Discover { xid, retry_delay_secs: delay }),
        r.1 matches ClientAction::SendAndListenAbout { message, dest_ip, listen_secs }
            && dest_ip.bits == 0xffff_ffff && listen_secs == delay && message.opcode == 1
            && message.xid == xid && message.flags == 0x8000 && message.hlen == 6
            && message.chaddr@ == seq![mac.0, mac.1, mac.2, mac.3, mac.4, mac.5]
            && message.ciaddr.bits == 0 && option_of(message@.options, 53) == Some(
            OptionView::Kind(1),
        ) && option_of(message@.options, 55) == Some(OptionView::Codes(seq![1u8, 3u8, 6u8])),
{
    reveal_with_fuel(option_of, 3);
}

/// A client with an offer asks everybody, over and over, for the address that was
/// offered, from the server that offered it.
pub proof fn law_offered_address_is_asked_for(
    xid: u32,
    offer: DhcpOffer,
    delay: u32,
    mac: MacAddr,
    now: u64,
    r: (ClientPhase, ClientAction),
)
    requires
        call_ensures(
            next_action,
            (ClientPhase::Request { xid, offer, retry_delay_secs: delay }, mac, now),
            r,
        ),
    ensures
        r.0 == (ClientPhase::Request { xid, offer, retry_delay_secs: delay }),
        r.1 matches ClientAction::SendAndListenAbout { message, dest_ip, listen_secs }
            && dest_ip.bits == 0xffff_ffff && listen_secs == delay && message.opcode == 1
            && message.xid == xid && message.flags == 0x8000 && message.hlen == 6
            && message.chaddr@ == seq![mac.0, mac.1, mac.2, mac.3, mac.4, mac.5]
            && message.ciaddr.bits == 0 && option_of(message@.options, 53) == Some(
            OptionView::Kind(3),
        ) && option_of(message@.options, 50) == Some(OptionView::Address(offer.offered_ip))
            && option_of(message@.options, 54) == (match offer.server_ip {
            Some(server) => Some(OptionView::Address(server)),
            None => None,
        }),
{
    lemma_request_options(
        mac,
        xid,
        offer.offered_ip,
        offer.server_ip,
        Ipv4Addr { bits: 0 },
    );
}

/// The messages of a client, told by what goes into them.
pub proof fn law_client_messages_say_what_they_are_for(
    mac: MacAddr,
    xid: u32,
    requested: Ipv4Addr,
    server: Option<Ipv4Addr>,
    ciaddr: Ipv4Addr,
    discover: DhcpMessage,
    request: DhcpMessage,
)
    requires
        call_ensures(build_discover_message, (mac, xid), discover),
        call_ensures(build_request_message, (mac, xid, requested, server, ciaddr), request),
    ensures
        discover.xid == xid && request.xid == xid,
        discover.opcode == 1 && request.opcode == 1,
        discover.hlen == 6 && request.hlen == 6,
        discover.chaddr@ == seq![mac.0, mac.1, mac.2, mac.3, mac.4, mac.5],
        request.chaddr@ == seq![mac.0, mac.1, mac.2, mac.3, mac.4, mac.5],
        discover.ciaddr.bits == 0 && request.ciaddr == ciaddr,
        discover.flags == 0x8000,
        request.flags == if ciaddr.bits == 0 {
            0x8000u16
        } else {
            0
        },
        option_of(discover@.options, 53) == Some(OptionView::Kind(1)),
        option_of(request@.options, 53) == Some(OptionView::Kind(3)),
        ciaddr.bits == 0 ==> option_of(request@.options, 50) == Some(
            OptionView::Address(requested),
        ),
        ciaddr.bits != 0 ==> option_of(request@.options, 50) is None,
        ciaddr.bits == 0 && server is Some ==> option_of(request@.options, 54) == Some(
            OptionView::Address(server->0),
        ),
        ciaddr.bits != 0 || server is None ==> option_of(request@.options, 54) is None,
{
    reveal_with_fuel(option_of, 3);
    lemma_request_options(mac, xid, requested, server, ciaddr);
}

/// What a client hears from a server in its exchange: an offer names an address
/// and its server, and any other message is no offer.
pub proof fn law_offers_are_recognised(dhcp: DhcpMessage, xid: u32, r: Option<DhcpOffer>)
    requires
        call_ensures(parse_offer, (&dhcp, xid), r),
    ensures
        r is Some <==> dhcp.xid == xid && option_of(dhcp@.options, 53) == Some(OptionView::Kind(2)),
        r matches Some(offer) ==> offer.offered_ip == dhcp.yiaddr && offer.server_ip == (
        match option_of(dhcp@.options, 54) {
            Some(OptionView::Address(server)) => Some(server),
            _ => None,
        }),
{
}

/// Whether `ack` grants what a message says: its address, and the mask, the first
/// router, the name servers, the time and the server that its options name. A
/// message without a mask stands for one of 24 bits, one without a time for an
/// hour.
pub open spec fn grants_what_it_says(ack: DhcpAck, m: DhcpMessage) -> bool {
    &&& ack.ip == m.yiaddr
    &&& match option_of(m@.options, 1) {
        Some(OptionView::Address(mask)) => ack.mask == mask,
        _ => ack.mask.bits == 0xffff_ff00,
    }
    &&& match option_of(m@.options, 3) {
        Some(OptionView::Addresses(routers)) => if routers.len() > 0 {
            ack.gateway == Some(routers[0])
        } else {
            ack.gateway is None
        },
        _ => ack.gateway is None,
    }
    &&& match option_of(m@.options, 6) {
        Some(OptionView::Addresses(servers)) => ack.dns_servers@ == servers,
        _ => ack.dns_servers@.len() == 0,
    }
    &&& match option_of(m@.options, 51) {
        Some(OptionView::Seconds(secs)) => ack.lease_secs == secs,
        _ => ack.lease_secs == 3600,
    }
    &&& match option_of(m@.options, 54) {
        Some(OptionView::Address(server)) => ack.server_ip == Some(server),
        _ => ack.server_ip is None,
    }
}

/// A message in the exchange is a grant, a refusal, or neither, by its type.
pub proof fn law_decisions_are_recognised(
    dhcp: DhcpMessage,
    xid: u32,
    r: ParseAckResult,
    outcome: Option<Result<DhcpAck, DhcpError>>,
)
    requires
        call_ensures(parse_ack_nak, (&dhcp, xid), r),
        call_ensures(handle_ack_result, (r,), outcome),
    ensures
        dhcp.xid == xid && option_of(dhcp@.options, 53) == Some(OptionView::Kind(5)) ==> (
        r matches ParseAckResult::Ack(ack) && grants_what_it_says(ack, dhcp) && outcome == Some(
            Ok::<DhcpAck, DhcpError>(ack),
        )),
        dhcp.xid == xid && option_of(dhcp@.options, 53) == Some(OptionView::Kind(6)) ==> r is Nak
            && outcome == Some(Err::<DhcpAck, DhcpError>(DhcpError::Nak)),
        dhcp.xid != xid || !(option_of(dhcp@.options, 53) matches Some(OptionView::Kind(kind)) && (
        kind == 5 || kind == 6)) ==> r is Unrelated && outcome is None,
{
}

/// A client that looks for servers goes on with the first offer in its exchange,
/// and ignores everything else.
pub proof fn law_first_offer_is_taken_up(
    xid: u32,
    delay: u32,
    dhcp: DhcpMessage,
    now: u64,
    r: (ClientPhase, MessageOutcome),
)
    requires
        call_ensures(
            on_message,
            (ClientPhase::Discover { xid, retry_delay_secs: delay }, &dhcp, now),
            r,
        ),
    ensures
        dhcp.xid == xid && option_of(dhcp@.options, 53) == Some(OptionView::Kind(2)) ==> {
            &&& r.1 is Advanced
            &&& r.0 matches ClientPhase::Request { xid: same, offer, retry_delay_secs }
            &&& same == xid
            &&& offer.offered_ip == dhcp.yiaddr
            &&& option_of(dhcp@.options, 54) matches Some(OptionView::Address(server))
                ==> offer.server_ip == Some(server)
            &&& retry_delay_secs == 4
        },
        dhcp.xid != xid || option_of(dhcp@.options, 53) != Some(OptionView::Kind(2)) ==> r.1 is Ignored
            && r.0 == (ClientPhase::Discover { xid, retry_delay_secs: delay }),
{
}

/// A client that waits for a decision takes over what is granted in its exchange,
/// from that moment on, gives up where it is refused, and ignores everything
/// else.
pub proof fn law_decision_is_heeded(
    phase: ClientPhase,
    xid: u32,
    dhcp: DhcpMessage,
    now: u64,
    r: (ClientPhase, MessageOutcome),
)
    requires
        call_ensures(on_message, (phase, &dhcp, now), r),
        (phase matches ClientPhase::Request { xid: own, .. } && own == xid) || (
        phase matches ClientPhase::Renew { xid: own, .. } && own == xid),
    ensures
        dhcp.xid == xid && option_of(dhcp@.options, 53) == Some(OptionView::Kind(5)) ==> {
            &&& r.1 is Granted
            &&& r.0 matches ClientPhase::Bound { ack, bound_at }
            &&& bound_at == now
            &&& grants_what_it_says(ack, dhcp)
        },
        dhcp.xid == xid && option_of(dhcp@.options, 53) == Some(OptionView::Kind(6)) ==> r.1
            == MessageOutcome::Failed(DhcpError::Nak),
        dhcp.xid != xid || !(option_of(dhcp@.options, 53) matches Some(OptionView::Kind(kind)) && (
        kind == 5 || kind == 6)) ==> r.1 is Ignored && r.0 == phase,
{
}

/// A client with an address that it does not renew ignores every message.
pub proof fn law_bound_client_ignores_messages(
    ack: DhcpAck,
    bound_at: u64,
    dhcp: DhcpMessage,
    now: u64,
    r: (ClientPhase, MessageOutcome),
)
    requires
        call_ensures(on_message, (ClientPhase::Bound { ack, bound_at }, &dhcp, now), r),
    ensures
        r.1 is Ignored,
        r.0 == (ClientPhase::Bound { ack, bound_at }),
{
}

/// Where nobody answers, the time between two messages is doubled, up to 64
/// seconds, beginning with four; the exchange and the offer stay as they are, and
/// a client with an address keeps it.
pub proof fn law_silence_doubles_the_delay(phase: ClientPhase, r: ClientPhase, first: ClientPhase)
    requires
        phase.wf(),
        call_ensures(on_timeout, (phase,), r),
        call_ensures(start_discover, (), first),
    ensures
        first matches ClientPhase::Discover { retry_delay_secs, .. } && retry_delay_secs == 4,
        phase matches ClientPhase::Discover { xid, retry_delay_secs: before } ==> (
        r matches ClientPhase::Discover { xid: same, retry_delay_secs: after } && same == xid && (
        after == 2 * before && after <= 64 || after == 64 && 2 * before > 64)),
        phase matches ClientPhase::Request { xid, offer, retry_delay_secs: before } ==> (
        r matches ClientPhase::Request { xid: same, offer: kept, retry_delay_secs: after } && same
            == xid && kept == offer && (after == 2 * before && after <= 64 || after == 64 && 2
            * before > 64)),
        phase is Bound || phase is Renew ==> r == phase,
{
}

/// The delay before a message is sent again is twice the last one, but never more
/// than 64 seconds.
pub proof fn law_delay_is_doubled(before: u32, after: u32)
    requires
        call_ensures(calculate_next_delay, (before,), after),
        before * 2 <= u32::MAX,
    ensures
        before <= 32 ==> after == before * 2,
        before > 32 ==> after == 64,
{
}

/// What a client writes into a frame is what the server reads from it at its
/// port: the frame that is sent for a message carries that message.
pub proof fn law_client_frame_carries_the_message(
    mac: MacAddr,
    message: DhcpMessage,
    dest_ip: Ipv4Addr,
    r: Result<Vec<u8>, DhcpError>,
    seen: &[u8],
    read: Option<DhcpMessage>,
)
    requires
        message@.plain(),
        message@.encodable(),
        message@.options.len() <= 253,
        call_ensures(client_frame, (mac, &message, dest_ip), r),
        r matches Ok(frame) ==> seen@ == frame@,
        call_ensures(parse_dhcp_payload, (seen, 67), read),
    ensures
        r is Ok,
        read matches Some(m) && m.opcode == message.opcode && m.xid == message.xid && m.flags
            == message.flags && m.ciaddr == message.ciaddr && m.yiaddr == message.yiaddr && m.siaddr
            == message.siaddr && m.giaddr == message.giaddr && m.chaddr@ == message.chaddr@
            && m.hlen == message.chaddr@.len() && forall|code: u8| #[trigger]
            option_of(m@.options, code) == as_read(option_of(message@.options, code)),
        seen@.len() >= 42,
        seen@.take(6) == seq![0xffu8, 0xff, 0xff, 0xff, 0xff, 0xff],
        seen@.subrange(6, 12) == seq![mac.0, mac.1, mac.2, mac.3, mac.4, mac.5],
{
    let bytes = message@.encoded();
    let route = client_route(mac, message.ciaddr, dest_ip);
    assert(bytes.len() <= MAX_UDP_PAYLOAD);
    law_frame_carries_message(route, bytes);
    law_message_reads_back(message@, bytes);
    let frame = raw_frame(route, bytes);
    assert(frame.take(6) =~= seq![0xffu8, 0xff, 0xff, 0xff, 0xff, 0xff]);
    assert(frame.subrange(6, 12) =~= seq![mac.0, mac.1, mac.2, mac.3, mac.4, mac.5]);
    assert(decoded_message(bytes) == Some(read->0@));
}

/// What a grant says in its options: the mask, the first router, the name servers
/// and the time.
pub proof fn law_lease_options_are_read(m: DhcpMessage, r: LeaseOptions)
    requires
        call_ensures(parse_lease_options, (&m,), r),
    ensures
        match option_of(m@.options, 1) {
            Some(OptionView::Address(mask)) => r.mask == mask,
            _ => r.mask.bits == 0xffff_ff00,
        },
        match option_of(m@.options, 3) {
            Some(OptionView::Addresses(routers)) => if routers.len() > 0 {
                r.gateway == Some(routers[0])
            } else {
                r.gateway is None
            },
            _ => r.gateway is None,
        },
        match option_of(m@.options, 6) {
            Some(OptionView::Addresses(servers)) => r.dns_servers@ == servers,
            _ => r.dns_servers@.len() == 0,
        },
        match option_of(m@.options, 51) {
            Some(OptionView::Seconds(secs)) => r.lease_secs == secs,
            _ => r.lease_secs == 3600,
        },
{
}

/// A copy of a list is the same list.
pub proof fn law_addresses_are_copied(addresses: Vec<Ipv4Addr>, r: Vec<Ipv4Addr>)
    requires
        call_ensures(copy_addresses, (&addresses,), r),
    ensures
        r@ == addresses@,
{
}

} // verus!
