//! What the DHCP server does for the clients on the LAN, told of what goes into
//! its functions and what comes out.

use crate::addr::{Ipv4Addr, Ipv4Net, MacAddr};
use crate::dhcp::{
    as_read, framed_message, option_of, parse_dhcp_payload, DhcpMessage, MessageView, OptionView,
};
use crate::dhcp_server::{
    begins_discover, begins_request, build_dhcp_nak, build_dhcp_reply, build_dhcp_reply_payload,
    continue_dhcp_discover, continue_dhcp_request, extract_client_mac, extract_sanitized_hostname,
    get_dest_mac_ip, handle_dhcp_discover, handle_dhcp_release, handle_dhcp_request, hostname_of,
    host_messages, is_spoofed_l2_packet, nak_to, process_incoming_packet, reply_route, reply_to,
    run_server_loop, send_dhcp_frame, send_dhcp_nak, sends, should_process_request_server_id,
    verify_arp_conflict, Reply, ServerAction, ServerConfig, ServerEvent, ServerStep,
};
use crate::exchange::law_client_reads_server;
use crate::frame_laws::{is_frame, lemma_frame, long_word, names, word};
use crate::ipc::{DhcpServerParentToWorkerMsg, DhcpServerWorkerToParentMsg};
use crate::lease_laws::{
    has_address, is_confirmed, is_held_back, is_lowest_free, is_name_of_expired, lemma_confirmed,
    lemma_dropped_names, lemma_lowest_free, letters, may_be_given, other_live_leases_stay,
    others_have, others_stay, runs,
};
use crate::lease_table::{LeaseConfirmation, LeaseTable, LeaseTableState, LeaseView};
use crate::packet::{PayloadTooLong, UdpRoute};
use crate::wan_laws::leading_ones;
use vstd::prelude::*;

verus! {

/// Whether a message, as it is read, grants `ip` in answer to `request`: it is of
/// the given kind, is about the client and the exchange of the request, and
/// describes the network of the server, which lets addresses for an hour.
pub open spec fn is_grant(
    m: DhcpMessage,
    kind: u8,
    request: MessageView,
    ip: Ipv4Addr,
    config: ServerConfig,
) -> bool {
    &&& m.opcode == 2
    &&& m.xid == request.xid
    &&& m.flags == request.flags
    &&& m.hlen == request.chaddr.len()
    &&& m.chaddr@ == request.chaddr
    &&& m.yiaddr == ip
    &&& m.ciaddr.bits == 0
    &&& m.giaddr.bits == 0
    &&& m.siaddr == config.server_ip
    &&& option_of(m@.options, 53) == Some(OptionView::Kind(kind))
    &&& option_of(m@.options, 54) == Some(OptionView::Address(config.server_ip))
    &&& option_of(m@.options, 1) == Some(OptionView::Address(config.subnet_mask))
    &&& option_of(m@.options, 3) == Some(OptionView::Addresses(seq![config.server_ip]))
    &&& option_of(m@.options, 6) == Some(OptionView::Addresses(seq![config.server_ip]))
    &&& option_of(m@.options, 51) == Some(OptionView::Seconds(3600))
    &&& forall|code: u8|
        code != 53 && code != 54 && code != 1 && code != 3 && code != 6 && code != 51
            ==> #[trigger] option_of(m@.options, code) is None
}

/// Whether a message, as it is read, refuses `request`.
pub open spec fn is_refusal(m: DhcpMessage, request: MessageView, config: ServerConfig) -> bool {
    &&& m.opcode == 2
    &&& m.xid == request.xid
    &&& m.hlen == request.chaddr.len()
    &&& m.chaddr@ == request.chaddr
    &&& m.yiaddr.bits == 0
    &&& m.flags == 0
    &&& m.ciaddr.bits == 0
    &&& m.siaddr.bits == 0
    &&& m.giaddr.bits == 0
    &&& option_of(m@.options, 53) == Some(OptionView::Kind(6))
    &&& option_of(m@.options, 54) == Some(OptionView::Address(config.server_ip))
    &&& forall|code: u8|
        code != 53 && code != 54 ==> #[trigger] option_of(m@.options, code) is None
}

/// Whether a frame goes from the server to the client: to everybody where the
/// request asks for that, else to the client at `ip`.
pub open spec fn goes_to(
    frame: Seq<u8>,
    config: ServerConfig,
    request: MessageView,
    mac: MacAddr,
    ip: Ipv4Addr,
) -> bool {
    &&& names(frame, 6, config.server_mac)
    &&& long_word(frame, 26) == config.server_ip.bits
    &&& word(frame, 34) == 67
    &&& word(frame, 36) == 68
    &&& if request.flags >= 0x8000 {
        names(frame, 0, MacAddr(255, 255, 255, 255, 255, 255)) && long_word(frame, 30)
            == 0xffff_ffff
    } else {
        names(frame, 0, mac) && long_word(frame, 30) == ip.bits
    }
}

/// What becomes of a reply: the frame in which it is sent, as `seen` on the LAN,
/// and the message that a client reads from it.
pub open spec fn is_seen(
    config: ServerConfig,
    reply: Reply,
    sent: Result<Vec<u8>, PayloadTooLong>,
    seen: &[u8],
    read: Option<DhcpMessage>,
) -> bool {
    &&& call_ensures(send_dhcp_frame, (&config, &reply), sent)
    &&& sent matches Ok(frame) ==> seen@ == frame@
    &&& call_ensures(parse_dhcp_payload, (seen, 68), read)
}

proof fn lemma_reply_is_read(
    config: ServerConfig,
    reply: Reply,
    m: MessageView,
    sent: Result<Vec<u8>, PayloadTooLong>,
    seen: &[u8],
    read: Option<DhcpMessage>,
)
    requires
        m.spelt_by(reply.payload@),
        m.plain(),
        m.chaddr.len() <= 16,
        m.options.len() <= 253,
        is_seen(config, reply, sent, seen, read),
    ensures
        sent is Ok,
        is_frame(
            seen@,
            UdpRoute {
                src_mac: config.server_mac,
                dst_mac: reply.dest_mac,
                src_ip: config.server_ip,
                dst_ip: reply.dest_ip,
                src_port: 67,
                dst_port: 68,
            },
            reply.payload@,
        ),
        read matches Some(got) && crate::exchange::reads_as(got@, m),
{
    law_client_reads_server(config, reply, m);
    lemma_frame(reply_route(config, reply), reply.payload@);
}

proof fn lemma_grant_options(request: MessageView, kind: u8, ip: Ipv4Addr, config: ServerConfig)
    ensures
        ({
            let m = reply_to(request, kind, ip, config);
            &&& m.plain()
            &&& m.options.len() <= 253
            &&& option_of(m.options, 53) == Some(OptionView::Kind(kind))
            &&& option_of(m.options, 54) == Some(OptionView::Address(config.server_ip))
            &&& option_of(m.options, 1) == Some(OptionView::Address(config.subnet_mask))
            &&& option_of(m.options, 3) == Some(OptionView::Addresses(seq![config.server_ip]))
            &&& option_of(m.options, 6) == Some(OptionView::Addresses(seq![config.server_ip]))
            &&& option_of(m.options, 51) == Some(OptionView::Seconds(3600))
            &&& forall|code: u8|
                code != 53 && code != 54 && code != 1 && code != 3 && code != 6 && code != 51
                    ==> #[trigger] option_of(m.options, code) is None
        }),
{
    reveal_with_fuel(option_of, 7);
}

proof fn lemma_refusal_options(request: MessageView, config: ServerConfig)
    ensures
        ({
            let m = nak_to(request, config);
            &&& m.plain()
            &&& m.options.len() <= 253
            &&& option_of(m.options, 53) == Some(OptionView::Kind(6))
            &&& option_of(m.options, 54) == Some(OptionView::Address(config.server_ip))
            &&& forall|code: u8|
                code != 53 && code != 54 ==> #[trigger] option_of(m.options, code) is None
        }),
{
    reveal_with_fuel(option_of, 3);
}

proof fn lemma_read_grant(
    got: DhcpMessage,
    request: MessageView,
    kind: u8,
    ip: Ipv4Addr,
    config: ServerConfig,
)
    requires
        request.chaddr.len() <= 16,
        crate::exchange::reads_as(got@, reply_to(request, kind, ip, config)),
    ensures
        is_grant(got, kind, request, ip, config),
{
    lemma_grant_options(request, kind, ip, config);
    let m = reply_to(request, kind, ip, config);
    assert(got@.chaddr == m.chaddr);
    assert(option_of(got@.options, 53) == as_read(option_of(m.options, 53)));
    assert(option_of(got@.options, 54) == as_read(option_of(m.options, 54)));
    assert(option_of(got@.options, 1) == as_read(option_of(m.options, 1)));
    assert(option_of(got@.options, 3) == as_read(option_of(m.options, 3)));
    assert(option_of(got@.options, 6) == as_read(option_of(m.options, 6)));
    assert(option_of(got@.options, 51) == as_read(option_of(m.options, 51)));
    assert forall|code: u8|
        code != 53 && code != 54 && code != 1 && code != 3 && code != 6 && code
            != 51 implies #[trigger] option_of(got@.options, code) is None by {
        assert(option_of(got@.options, code) == as_read(option_of(m.options, code)));
    }
}

proof fn lemma_read_refusal(got: DhcpMessage, request: MessageView, config: ServerConfig)
    requires
        request.chaddr.len() <= 16,
        crate::exchange::reads_as(got@, nak_to(request, config)),
    ensures
        is_refusal(got, request, config),
{
    lemma_refusal_options(request, config);
    let m = nak_to(request, config);
    assert(got@.chaddr == m.chaddr);
    assert(option_of(got@.options, 53) == as_read(option_of(m.options, 53)));
    assert(option_of(got@.options, 54) == as_read(option_of(m.options, 54)));
    assert forall|code: u8| code != 53 && code != 54 implies #[trigger] option_of(
        got@.options,
        code,
    ) is None by {
        assert(option_of(got@.options, code) == as_read(option_of(m.options, code)));
    }
}

proof fn lemma_goes_to(
    frame: Seq<u8>,
    payload: Seq<u8>,
    config: ServerConfig,
    reply: Reply,
    request: MessageView,
    mac: MacAddr,
    ip: Ipv4Addr,
)
    requires
        is_frame(
            frame,
            UdpRoute {
                src_mac: config.server_mac,
                dst_mac: reply.dest_mac,
                src_ip: config.server_ip,
                dst_ip: reply.dest_ip,
                src_port: 67,
                dst_port: 68,
            },
            payload,
        ),
        (reply.dest_mac, reply.dest_ip) == crate::dhcp_server::destination(
            request.broadcast(),
            mac,
            ip,
        ),
    ensures
        goes_to(frame, config, request, mac, ip),
{
}

proof fn lemma_grant_is_read(
    config: ServerConfig,
    reply: Reply,
    request: MessageView,
    kind: u8,
    mac: MacAddr,
    ip: Ipv4Addr,
    sent: Result<Vec<u8>, PayloadTooLong>,
    seen: &[u8],
    read: Option<DhcpMessage>,
)
    requires
        request.chaddr.len() <= 16,
        sends(
            reply,
            reply_to(request, kind, ip, config),
            crate::dhcp_server::destination(request.broadcast(), mac, ip),
        ),
        is_seen(config, reply, sent, seen, read),
    ensures
        sent is Ok,
        read matches Some(m) && is_grant(m, kind, request, ip, config),
        goes_to(seen@, config, request, mac, ip),
{
    let m = reply_to(request, kind, ip, config);
    assert(m.plain() && m.options.len() <= 253) by {
        lemma_grant_options(request, kind, ip, config);
    }
    assert(m.chaddr.len() <= 16);
    lemma_reply_is_read(config, reply, m, sent, seen, read);
    lemma_read_grant(read->0, request, kind, ip, config);
    lemma_goes_to(seen@, reply.payload@, config, reply, request, mac, ip);
}

proof fn lemma_refusal_is_read(
    config: ServerConfig,
    reply: Reply,
    request: MessageView,
    mac: MacAddr,
    sent: Result<Vec<u8>, PayloadTooLong>,
    seen: &[u8],
    read: Option<DhcpMessage>,
)
    requires
        request.chaddr.len() <= 16,
        sends(
            reply,
            nak_to(request, config),
            crate::dhcp_server::destination(
                request.broadcast(),
                mac,
                Ipv4Addr { bits: 0xffff_ffff },
            ),
        ),
        is_seen(config, reply, sent, seen, read),
    ensures
        sent is Ok,
        read matches Some(m) && is_refusal(m, request, config),
        goes_to(seen@, config, request, mac, Ipv4Addr { bits: 0xffff_ffff }),
{
    let m = nak_to(request, config);
    let everybody = Ipv4Addr { bits: 0xffff_ffff };
    assert(m.plain() && m.options.len() <= 253) by {
        lemma_refusal_options(request, config);
    }
    assert(m.chaddr.len() <= 16);
    lemma_reply_is_read(config, reply, m, sent, seen, read);
    lemma_read_refusal(read->0, request, config);
    lemma_goes_to(seen@, reply.payload@, config, reply, request, mac, everybody);
}

/// An offer or an acknowledgement is about the client and the exchange of the
/// message that it answers, and grants the address with the network of the
/// server.
pub proof fn law_grant_is_about_the_client(
    kind: u8,
    dhcp: DhcpMessage,
    ip: Ipv4Addr,
    config: ServerConfig,
    r: DhcpMessage,
)
    requires
        call_ensures(build_dhcp_reply, (kind, &dhcp, ip, &config), r),
        dhcp.chaddr@.len() <= 16,
    ensures
        is_grant(r, kind, dhcp@, ip, config),
{
    reveal_with_fuel(option_of, 7);
    assert(r@.chaddr == dhcp@.chaddr);
}

/// A refusal is about the client and the exchange of the message that it answers.
pub proof fn law_refusal_is_about_the_client(dhcp: DhcpMessage, config: ServerConfig, r: DhcpMessage)
    requires
        call_ensures(build_dhcp_nak, (&dhcp, &config), r),
        dhcp.chaddr@.len() <= 16,
    ensures
        is_refusal(r, dhcp@, config),
{
    reveal_with_fuel(option_of, 3);
    assert(r@.chaddr == dhcp@.chaddr);
}

/// A refusal reaches the client that it is about.
pub proof fn law_refusal_reaches_the_client(
    dhcp: DhcpMessage,
    mac: MacAddr,
    config: ServerConfig,
    reply: Reply,
    sent: Result<Vec<u8>, PayloadTooLong>,
    seen: &[u8],
    read: Option<DhcpMessage>,
)
    requires
        call_ensures(send_dhcp_nak, (&dhcp, mac, &config), reply),
        dhcp.chaddr@.len() <= 16,
        is_seen(config, reply, sent, seen, read),
    ensures
        sent is Ok,
        read matches Some(m) && is_refusal(m, dhcp@, config),
        goes_to(seen@, config, dhcp@, mac, Ipv4Addr { bits: 0xffff_ffff }),
{
    lemma_refusal_is_read(config, reply, dhcp@, mac, sent, seen, read);
}

/// Whether `after` is the table once a client was given an address for an hour
/// under a name.
pub open spec fn is_let(
    before: LeaseTableState,
    after: LeaseTableState,
    mac: MacAddr,
    ip: Ipv4Addr,
    name: Option<String>,
    now: u64,
) -> bool {
    &&& after.leases.contains_key(mac)
    &&& after.leases[mac] == (LeaseView {
        ip,
        expiry: (now + 3_600_000_000_000) as u64,
        hostname: letters(name),
    })
    &&& others_stay(before, after, mac)
    &&& after.conflicts == before.conflicts
}

/// Whether the next candidate is probed for a client, or there is none.
pub open spec fn is_probed(
    r: ServerAction,
    dhcp: MessageView,
    mac: MacAddr,
    config: ServerConfig,
    before: LeaseTableState,
    now: u64,
    after: LeaseTableState,
) -> bool {
    &&& other_live_leases_stay(before, after, mac, now)
    &&& match r {
        ServerAction::ProbeOffer { dhcp: kept, client_mac, ip } => {
            &&& kept@ == dhcp
            &&& client_mac == mac
            &&& is_lowest_free(before, config.net, config.server_ip, now, Some(ip))
            &&& after.leases.contains_key(mac)
            &&& after.leases[mac] == (LeaseView {
                ip,
                expiry: (now + 10_000_000_000) as u64,
                hostname: None,
            })
        },
        ServerAction::PoolExhausted => is_lowest_free(
            before,
            config.net,
            config.server_ip,
            now,
            None,
        ),
        _ => false,
    }
}

proof fn lemma_probed(
    config: ServerConfig,
    m: MessageView,
    mac: MacAddr,
    before: LeaseTableState,
    now: u64,
    r: ServerAction,
    after: LeaseTableState,
)
    requires
        crate::dhcp_server::probes_candidate(config, m, mac, before, now, r, after),
        config.net.prefix_len <= 32,
        now + 3_600_000_000_000 <= u64::MAX,
    ensures
        is_probed(r, m, mac, config, before, now, after),
{
    match r {
        ServerAction::ProbeOffer { ip, .. } => {
            lemma_lowest_free(before, config.net, config.server_ip, now, Some(ip));
        },
        _ => {
            lemma_lowest_free(before, config.net, config.server_ip, now, None);
        },
    }
}

proof fn lemma_discovered(
    config: ServerConfig,
    m: MessageView,
    mac: MacAddr,
    before: LeaseTableState,
    now: u64,
    r: ServerAction,
    after: LeaseTableState,
    name: Option<String>,
    sent: Result<Vec<u8>, PayloadTooLong>,
    seen: &[u8],
    read: Option<DhcpMessage>,
)
    requires
        begins_discover(config, m, mac, before, now, r, after),
        config.net.prefix_len <= 32,
        m.chaddr.len() <= 16,
        letters(name) == hostname_of(m),
        now + 3_600_000_000_000 <= u64::MAX,
        r matches ServerAction::Send(reply) ==> is_seen(config, reply, sent, seen, read),
    ensures
        runs(before, mac, now) ==> {
            &&& r is Send
            &&& read matches Some(got) && is_grant(got, 2, m, before.leases[mac].ip, config)
            &&& goes_to(seen@, config, m, mac, before.leases[mac].ip)
            &&& is_let(before, after, mac, before.leases[mac].ip, name, now)
        },
        !runs(before, mac, now) ==> is_probed(r, m, mac, config, before, now, after),
{
    if runs(before, mac, now) {
        lemma_grant_is_read(
            config,
            r->Send_0,
            m,
            2,
            mac,
            before.leases[mac].ip,
            sent,
            seen,
            read,
        );
    } else {
        lemma_probed(config, m, mac, before, now, r, after);
    }
}

/// A client that looks for a server and has an address is offered it again for
/// an hour: what it reads from the frame is an offer of that address to itself.
/// For any other client the lowest free address is probed.
pub proof fn law_discovery_is_answered(
    config: ServerConfig,
    dhcp: DhcpMessage,
    mac: MacAddr,
    leases: &mut LeaseTable,
    now: u64,
    r: ServerAction,
    name: Option<String>,
    sent: Result<Vec<u8>, PayloadTooLong>,
    seen: &[u8],
    read: Option<DhcpMessage>,
)
    requires
        call_ensures(handle_dhcp_discover, (&config, dhcp, mac, leases, now), r),
        call_ensures(extract_sanitized_hostname, (&dhcp,), name),
        config.net.prefix_len <= 32,
        dhcp.chaddr@.len() <= 16,
        now + 3_600_000_000_000 <= u64::MAX,
        r matches ServerAction::Send(reply) ==> is_seen(config, reply, sent, seen, read),
    ensures
        runs(old(leases)@, mac, now) ==> {
            let ip = old(leases)@.leases[mac].ip;
            &&& r is Send
            &&& read matches Some(got) && is_grant(got, 2, dhcp@, ip, config)
            &&& goes_to(seen@, config, dhcp@, mac, ip)
            &&& is_let(old(leases)@, final(leases)@, mac, ip, name, now)
        },
        !runs(old(leases)@, mac, now) ==> is_probed(
            r,
            dhcp@,
            mac,
            config,
            old(leases)@,
            now,
            final(leases)@,
        ),
{
    lemma_discovered(
        config,
        dhcp@,
        mac,
        old(leases)@,
        now,
        r,
        final(leases)@,
        name,
        sent,
        seen,
        read,
    );
}

proof fn lemma_others_have(table: LeaseTableState, ip: Ipv4Addr, mac: MacAddr, now: u64)
    ensures
        table.ip_taken_by_other(ip, mac, now) == others_have(table, mac, ip, now),
{
    if table.ip_taken_by_other(ip, mac, now) {
        let other = choose|other: MacAddr| other != mac && #[trigger] table.leases_to(other, ip, now);
        assert(has_address(table, other, ip, now));
    }
    if others_have(table, mac, ip, now) {
        let other = choose|other: MacAddr|
            other != mac && #[trigger] has_address(table, other, ip, now);
        assert(table.leases_to(other, ip, now));
    }
}

/// A probed address that nobody else was found to have is offered for an hour:
/// what the client reads from the frame is an offer of that address to itself. One
/// that somebody else has is held back for five minutes, and another one is
/// probed.
pub proof fn law_probed_address_is_offered(
    config: ServerConfig,
    dhcp: DhcpMessage,
    mac: MacAddr,
    ip: Ipv4Addr,
    leases: &mut LeaseTable,
    now: u64,
    r: ServerAction,
    name: Option<String>,
    sent: Result<Vec<u8>, PayloadTooLong>,
    seen: &[u8],
    read: Option<DhcpMessage>,
)
    requires
        call_ensures(continue_dhcp_discover, (&config, dhcp, mac, ip, leases, now), r),
        call_ensures(extract_sanitized_hostname, (&dhcp,), name),
        config.net.prefix_len <= 32,
        dhcp.chaddr@.len() <= 16,
        now + 3_600_000_000_000 <= u64::MAX,
        r matches ServerAction::Send(reply) ==> is_seen(config, reply, sent, seen, read),
    ensures
        !others_have(old(leases)@, mac, ip, now) ==> {
            &&& r is Send
            &&& read matches Some(got) && is_grant(got, 2, dhcp@, ip, config)
            &&& goes_to(seen@, config, dhcp@, mac, ip)
            &&& is_let(old(leases)@, final(leases)@, mac, ip, name, now)
        },
        others_have(old(leases)@, mac, ip, now) ==> {
            &&& r is ProbeOffer || r is PoolExhausted
            &&& r matches ServerAction::ProbeOffer { dhcp: kept, client_mac, ip: next } ==> kept@
                == dhcp@ && client_mac == mac && next != ip
            &&& other_live_leases_stay(old(leases)@, final(leases)@, mac, now)
            &&& forall|later: u64|
                #![trigger is_held_back(final(leases)@, ip, later)]
                now <= later < now + 300_000_000_000 ==> is_held_back(final(leases)@, ip, later)
        },
{
    let before = old(leases)@;
    lemma_others_have(before, ip, mac, now);
    if others_have(before, mac, ip, now) {
        let held = before.with_conflict(ip, now + crate::dhcp_server::CONFLICT_HOLD_DURATION);
        lemma_probed(config, dhcp@, mac, held, now, r, final(leases)@);
        assert(is_held_back(held, ip, now));
        assert forall|other: MacAddr| other != mac implies (#[trigger] runs(
            final(leases)@,
            other,
            now,
        ) <==> runs(before, other, now)) && (runs(before, other, now)
            ==> final(leases)@.leases[other] == before.leases[other]) by {
            assert(runs(held, other, now) == runs(before, other, now));
        }
    } else {
        lemma_grant_is_read(config, r->Send_0, dhcp@, 2, mac, ip, sent, seen, read);
    }
}

/// Whether an address is being used by somebody else is found out from the table;
/// then it is held back for five minutes.
pub proof fn law_address_in_use_is_held_back(
    ip: Ipv4Addr,
    mac: MacAddr,
    leases: &mut LeaseTable,
    now: u64,
    r: bool,
)
    requires
        call_ensures(verify_arp_conflict, (ip, mac, leases, now), r),
        now + 3_600_000_000_000 <= u64::MAX,
    ensures
        r == others_have(old(leases)@, mac, ip, now),
        final(leases)@.leases == old(leases)@.leases,
        !r ==> final(leases)@ == old(leases)@,
        r ==> forall|later: u64| #[trigger]
            is_held_back(final(leases)@, ip, later) <==> later < now + 300_000_000_000,
{
    lemma_others_have(old(leases)@, ip, mac, now);
}

/// The address that a request is about: the one it names, else the one that the
/// client has.
pub open spec fn wanted(
    m: MessageView,
    mac: MacAddr,
    table: LeaseTableState,
    now: u64,
) -> Option<Ipv4Addr> {
    match option_of(m.options, 50) {
        Some(OptionView::Address(ip)) => Some(ip),
        _ => if runs(table, mac, now) {
            Some(table.leases[mac].ip)
        } else {
            None
        },
    }
}

/// Whether a request is meant for another server.
pub open spec fn is_for_another(m: MessageView, server_ip: Ipv4Addr) -> bool {
    option_of(m.options, 54) matches Some(OptionView::Address(ip)) && ip != server_ip
}

/// Whether a request is answered as it should be.
pub open spec fn is_answered(
    r: ServerAction,
    m: MessageView,
    mac: MacAddr,
    config: ServerConfig,
    name: Option<String>,
    before: LeaseTableState,
    now: u64,
    after: LeaseTableState,
    seen: Seq<u8>,
    read: Option<DhcpMessage>,
) -> bool {
    let ip = wanted(m, mac, before, now);
    if is_for_another(m, config.server_ip) {
        r is Nothing && after == before
    } else if ip is Some && may_be_given(before, mac, ip->0, config.server_ip, config.net, now) {
        &&& r matches ServerAction::ProbeAck { dhcp, client_mac, confirmation }
        &&& dhcp@ == m
        &&& client_mac == mac
        &&& is_confirmed(
            before,
            after,
            mac,
            ip->0,
            3_600_000_000_000,
            letters(name),
            now,
            confirmation,
        )
    } else {
        &&& r is Send
        &&& read matches Some(got) && is_refusal(got, m, config)
        &&& goes_to(seen, config, m, mac, Ipv4Addr { bits: 0xffff_ffff })
        &&& after == before
    }
}

proof fn lemma_requested(
    config: ServerConfig,
    m: MessageView,
    mac: MacAddr,
    before: LeaseTableState,
    now: u64,
    r: ServerAction,
    after: LeaseTableState,
    name: Option<String>,
    sent: Result<Vec<u8>, PayloadTooLong>,
    seen: &[u8],
    read: Option<DhcpMessage>,
)
    requires
        begins_request(config, m, mac, before, now, r, after),
        config.net.prefix_len <= 32,
        m.chaddr.len() <= 16,
        letters(name) == hostname_of(m),
        r matches ServerAction::Send(reply) ==> is_seen(config, reply, sent, seen, read),
    ensures
        is_answered(r, m, mac, config, name, before, now, after, seen@, read),
{
    let ip = wanted(m, mac, before, now);
    let confirmation = match r {
        ServerAction::ProbeAck { confirmation, .. } => Some(confirmation),
        _ => None,
    };
    if !is_for_another(m, config.server_ip) {
        if ip is Some {
            lemma_confirmed(
                before,
                after,
                mac,
                m.requested_ip(),
                config.server_ip,
                config.net,
                crate::dhcp_server::LAN_LEASE_DURATION,
                letters(name),
                now,
                confirmation,
                ip->0,
            );
        }
        if confirmation is None {
            lemma_refusal_is_read(config, r->Send_0, m, mac, sent, seen, read);
        }
    }
}

/// A request for another server is left alone. One for an address that the client
/// may have is confirmed for an hour, and the address is probed; any other is
/// refused, and the client reads that from the frame. A request that names no
/// address is about the one that the client has.
pub proof fn law_request_is_answered(
    config: ServerConfig,
    dhcp: DhcpMessage,
    mac: MacAddr,
    leases: &mut LeaseTable,
    now: u64,
    r: ServerAction,
    name: Option<String>,
    sent: Result<Vec<u8>, PayloadTooLong>,
    seen: &[u8],
    read: Option<DhcpMessage>,
)
    requires
        call_ensures(handle_dhcp_request, (&config, dhcp, mac, leases, now), r),
        call_ensures(extract_sanitized_hostname, (&dhcp,), name),
        config.net.prefix_len <= 32,
        dhcp.chaddr@.len() <= 16,
        r matches ServerAction::Send(reply) ==> is_seen(config, reply, sent, seen, read),
    ensures
        is_answered(
            r,
            dhcp@,
            mac,
            config,
            name,
            old(leases)@,
            now,
            final(leases)@,
            seen@,
            read,
        ),
{
    lemma_requested(
        config,
        dhcp@,
        mac,
        old(leases)@,
        now,
        r,
        final(leases)@,
        name,
        sent,
        seen,
        read,
    );
}

/// A confirmed address that nobody else was found to have is acknowledged: what
/// the client reads from the frame is an acknowledgement of that address to
/// itself, and the names that it gave up and gained are passed on. One that
/// somebody else has is held back for five minutes, and the request is refused.
pub proof fn law_confirmed_address_is_acknowledged(
    config: ServerConfig,
    dhcp: DhcpMessage,
    mac: MacAddr,
    confirmation: LeaseConfirmation,
    leases: &mut LeaseTable,
    now: u64,
    r: ServerAction,
    sent: Result<Vec<u8>, PayloadTooLong>,
    seen: &[u8],
    read: Option<DhcpMessage>,
)
    requires
        call_ensures(
            continue_dhcp_request,
            (&config, dhcp, mac, confirmation, leases, now),
            r,
        ),
        dhcp.chaddr@.len() <= 16,
        now + 3_600_000_000_000 <= u64::MAX,
        r matches ServerAction::Send(reply) ==> is_seen(config, reply, sent, seen, read),
        r matches ServerAction::Ack { reply, .. } ==> is_seen(config, reply, sent, seen, read),
    ensures
        !others_have(old(leases)@, mac, confirmation.ip, now) ==> {
            &&& r matches ServerAction::Ack { ip, deregister, register, .. }
            &&& ip == confirmation.ip
            &&& letters(deregister) == letters(confirmation.old_hostname_to_deregister)
            &&& letters(register) == letters(confirmation.hostname)
            &&& read matches Some(got) && is_grant(got, 5, dhcp@, confirmation.ip, config)
            &&& goes_to(seen@, config, dhcp@, mac, confirmation.ip)
            &&& final(leases)@ == old(leases)@
        },
        others_have(old(leases)@, mac, confirmation.ip, now) ==> {
            &&& r is Send
            &&& read matches Some(got) && is_refusal(got, dhcp@, config)
            &&& final(leases)@.leases == old(leases)@.leases
            &&& forall|later: u64| #[trigger]
                is_held_back(final(leases)@, confirmation.ip, later) <==> later < now
                    + 300_000_000_000
        },
{
    lemma_others_have(old(leases)@, confirmation.ip, mac, now);
    if others_have(old(leases)@, mac, confirmation.ip, now) {
        lemma_refusal_is_read(config, r->Send_0, dhcp@, mac, sent, seen, read);
    } else {
        lemma_grant_is_read(
            config,
            r->reply,
            dhcp@,
            5,
            mac,
            confirmation.ip,
            sent,
            seen,
            read,
        );
    }
}

/// Whether the lease of a client is taken away, and its address and its name are
/// said.
pub open spec fn is_taken_back(
    r: ServerAction,
    mac: MacAddr,
    before: LeaseTableState,
    after: LeaseTableState,
) -> bool {
    &&& !after.leases.contains_key(mac)
    &&& others_stay(before, after, mac)
    &&& after.conflicts == before.conflicts
    &&& before.leases.contains_key(mac) ==> (r matches ServerAction::Released { ip, deregister }
        && ip == before.leases[mac].ip && letters(deregister) == before.leases[mac].hostname)
    &&& !before.leases.contains_key(mac) ==> r is Nothing
}

/// An address that a client gives back is no longer its own; the others keep
/// theirs.
pub proof fn law_released_address_is_taken_back(
    mac: MacAddr,
    leases: &mut LeaseTable,
    r: ServerAction,
)
    requires
        call_ensures(handle_dhcp_release, (mac, leases), r),
    ensures
        is_taken_back(r, mac, old(leases)@, final(leases)@),
{
}

/// Whether a frame holds a message of the client with this hardware address: a
/// request with six bytes of hardware address, neither all zero nor all ones,
/// that either came through a relay or was sent by that client itself.
pub open spec fn is_from(frame: Seq<u8>, m: DhcpMessage, mac: MacAddr) -> bool {
    &&& m.opcode == 1
    &&& m.hlen == 6
    &&& m.chaddr@.len() >= 6
    &&& names(m.chaddr@, 0, mac)
    &&& mac != MacAddr(0, 0, 0, 0, 0, 0)
    &&& mac != MacAddr(255, 255, 255, 255, 255, 255)
    &&& m.giaddr.bits != 0 || names(frame, 6, mac)
}

proof fn lemma_accepted(frame: Seq<u8>, m: DhcpMessage, mac: MacAddr)
    requires
        framed_message(frame, 67) == Some(m@),
        is_from(frame, m, mac),
    ensures
        crate::dhcp_server::accepted(frame) == Some((m@, mac)),
{
    assert(m@.chaddr == m.chaddr@);
    assert(crate::dhcp_server::client_mac_of(m@) == Some(mac));
}

/// A frame with a discovery of a client is answered as a discovery of that
/// client.
pub proof fn law_frame_with_a_discovery_is_answered(
    buf: &[u8],
    config: ServerConfig,
    leases: &mut LeaseTable,
    now: u64,
    r: ServerAction,
    m: DhcpMessage,
    mac: MacAddr,
    name: Option<String>,
    sent: Result<Vec<u8>, PayloadTooLong>,
    seen: &[u8],
    read: Option<DhcpMessage>,
)
    requires
        call_ensures(process_incoming_packet, (buf, &config, leases, now), r),
        call_ensures(parse_dhcp_payload, (buf, 67), Some(m)),
        is_from(buf@, m, mac),
        option_of(m@.options, 53) == Some(OptionView::Kind(1)),
        call_ensures(extract_sanitized_hostname, (&m,), name),
        config.net.prefix_len <= 32,
        now + 3_600_000_000_000 <= u64::MAX,
        r matches ServerAction::Send(reply) ==> is_seen(config, reply, sent, seen, read),
    ensures
        runs(old(leases)@, mac, now) ==> {
            let ip = old(leases)@.leases[mac].ip;
            &&& r is Send
            &&& read matches Some(got) && is_grant(got, 2, m@, ip, config)
            &&& goes_to(seen@, config, m@, mac, ip)
            &&& is_let(old(leases)@, final(leases)@, mac, ip, name, now)
        },
        !runs(old(leases)@, mac, now) ==> is_probed(
            r,
            m@,
            mac,
            config,
            old(leases)@,
            now,
            final(leases)@,
        ),
{
    lemma_accepted(buf@, m, mac);
    lemma_discovered(
        config,
        m@,
        mac,
        old(leases)@,
        now,
        r,
        final(leases)@,
        name,
        sent,
        seen,
        read,
    );
}

/// A frame with a request of a client is answered as a request of that client.
pub proof fn law_frame_with_a_request_is_answered(
    buf: &[u8],
    config: ServerConfig,
    leases: &mut LeaseTable,
    now: u64,
    r: ServerAction,
    m: DhcpMessage,
    mac: MacAddr,
    name: Option<String>,
    sent: Result<Vec<u8>, PayloadTooLong>,
    seen: &[u8],
    read: Option<DhcpMessage>,
)
    requires
        call_ensures(process_incoming_packet, (buf, &config, leases, now), r),
        call_ensures(parse_dhcp_payload, (buf, 67), Some(m)),
        is_from(buf@, m, mac),
        option_of(m@.options, 53) == Some(OptionView::Kind(3)),
        call_ensures(extract_sanitized_hostname, (&m,), name),
        config.net.prefix_len <= 32,
        r matches ServerAction::Send(reply) ==> is_seen(config, reply, sent, seen, read),
    ensures
        is_answered(
            r,
            m@,
            mac,
            config,
            name,
            old(leases)@,
            now,
            final(leases)@,
            seen@,
            read,
        ),
{
    lemma_accepted(buf@, m, mac);
    lemma_requested(
        config,
        m@,
        mac,
        old(leases)@,
        now,
        r,
        final(leases)@,
        name,
        sent,
        seen,
        read,
    );
}

/// A frame by which a client gives its address back, or declines it, takes that
/// address back; a frame with any other message of a client does nothing.
pub proof fn law_frame_with_a_release_is_heeded(
    buf: &[u8],
    config: ServerConfig,
    leases: &mut LeaseTable,
    now: u64,
    r: ServerAction,
    m: DhcpMessage,
    mac: MacAddr,
)
    requires
        call_ensures(process_incoming_packet, (buf, &config, leases, now), r),
        call_ensures(parse_dhcp_payload, (buf, 67), Some(m)),
        is_from(buf@, m, mac),
        option_of(m@.options, 53) != Some(OptionView::Kind(1)),
        option_of(m@.options, 53) != Some(OptionView::Kind(3)),
    ensures
        option_of(m@.options, 53) == Some(OptionView::Kind(4)) || option_of(m@.options, 53) == Some(
            OptionView::Kind(7),
        ) ==> is_taken_back(r, mac, old(leases)@, final(leases)@),
        option_of(m@.options, 53) != Some(OptionView::Kind(4)) && option_of(m@.options, 53) != Some(
            OptionView::Kind(7),
        ) ==> r is Nothing && final(leases)@ == old(leases)@,
{
    lemma_accepted(buf@, m, mac);
}

/// A frame that holds no message for the server, or none of a client, or one that
/// somebody else sent in the name of a client, does nothing.
pub proof fn law_other_frames_do_nothing(
    buf: &[u8],
    config: ServerConfig,
    leases: &mut LeaseTable,
    now: u64,
    r: ServerAction,
    m: Option<DhcpMessage>,
)
    requires
        call_ensures(process_incoming_packet, (buf, &config, leases, now), r),
        call_ensures(parse_dhcp_payload, (buf, 67), m),
        m matches Some(got) ==> forall|mac: MacAddr| !#[trigger] is_from(buf@, got, mac),
    ensures
        r is Nothing,
        final(leases)@ == old(leases)@,
{
    if let Some(got) = m {
        assert(got@.chaddr == got.chaddr@);
        if let Some((_, mac)) = crate::dhcp_server::accepted(buf@) {
            assert(is_from(buf@, got, mac));
        }
    }
}

/// The client that a message is from, and whether somebody else sent it in the
/// name of that client.
pub proof fn law_clients_are_known_by_their_hardware(
    dhcp: DhcpMessage,
    mac: Option<MacAddr>,
    source: MacAddr,
    client: MacAddr,
    giaddr: Ipv4Addr,
    spoofed: bool,
)
    requires
        call_ensures(extract_client_mac, (&dhcp,), mac),
        call_ensures(is_spoofed_l2_packet, (source, client, giaddr), spoofed),
    ensures
        mac matches Some(found) ==> dhcp.hlen == 6 && dhcp.chaddr@.len() >= 6 && names(
            dhcp.chaddr@,
            0,
            found,
        ) && found != MacAddr(0, 0, 0, 0, 0, 0) && found != MacAddr(255, 255, 255, 255, 255, 255),
        dhcp.hlen == 6 && dhcp.chaddr@.len() >= 6 && names(dhcp.chaddr@, 0, client) && client
            != MacAddr(0, 0, 0, 0, 0, 0) && client != MacAddr(255, 255, 255, 255, 255, 255) ==> mac
            == Some(client),
        spoofed <==> giaddr.bits == 0 && source != client,
{
    assert(dhcp@.chaddr == dhcp.chaddr@);
}

/// A request is for this server where it names it, or none.
pub proof fn law_requests_name_their_server(dhcp: DhcpMessage, server_ip: Ipv4Addr, r: bool)
    requires
        call_ensures(should_process_request_server_id, (&dhcp, server_ip), r),
    ensures
        r == !is_for_another(dhcp@, server_ip),
{
}

/// An answer goes to everybody where the client asked for that, and otherwise to
/// the client at its address.
pub proof fn law_answers_go_to_the_client(
    broadcast: bool,
    mac: MacAddr,
    ip: Ipv4Addr,
    r: (MacAddr, Ipv4Addr),
)
    requires
        call_ensures(get_dest_mac_ip, (broadcast, mac, ip), r),
    ensures
        broadcast ==> r.0 == MacAddr(255, 255, 255, 255, 255, 255) && r.1.bits == 0xffff_ffff,
        !broadcast ==> r.0 == mac && r.1 == ip,
{
}

/// The server has the address and the subnet that it is told, and the mask that
/// goes with the subnet.
pub proof fn law_server_has_its_subnet(net: Ipv4Net, mac: MacAddr, r: ServerConfig)
    requires
        call_ensures(ServerConfig::new, (net, mac), r),
        net.prefix_len <= 32,
    ensures
        r.net == net,
        r.server_ip == net.addr,
        r.subnet_mask.bits == leading_ones(net.prefix_len),
        r.server_mac == mac,
{
}

/// A server is set up from its address and subnet in text, where the text spells
/// them.
pub proof fn law_server_is_set_up_from_text(
    text: &str,
    mac: MacAddr,
    r: Option<ServerConfig>,
    net: Option<Ipv4Net>,
)
    requires
        call_ensures(ServerConfig::parse, (text, mac), r),
        call_ensures(Ipv4Net::parse, (text,), net),
    ensures
        r is Some <==> net is Some,
        r matches Some(config) ==> config.net == net->0 && config.server_ip == net->0.addr
            && config.subnet_mask.bits == leading_ones(net->0.prefix_len) && config.server_mac
            == mac,
{
}

/// The parent is told first of the name that is given up and then of the one that
/// is gained, and of nothing where no lease came or went.
pub proof fn law_parent_is_told_of_names(action: ServerAction, r: Vec<DhcpServerWorkerToParentMsg>)
    requires
        call_ensures(host_messages, (&action,), r),
    ensures
        match action {
            ServerAction::Ack { ip, deregister, register, .. } => {
                let lost: int = if deregister is Some {
                    1
                } else {
                    0
                };
                &&& r@.len() == lost + (if register is Some {
                    1int
                } else {
                    0
                })
                &&& deregister matches Some(name) ==> (
                r@[0] matches DhcpServerWorkerToParentMsg::DeregisterLocalHost { name: said }
                    && said@ == name@)
                &&& register matches Some(name) ==> (
                r@[lost] matches DhcpServerWorkerToParentMsg::RegisterLocalHost {
                    name: said,
                    ip: at,
                } && said@ == name@ && at == ip)
            },
            ServerAction::Released { deregister, .. } => {
                &&& r@.len() == (if deregister is Some {
                    1int
                } else {
                    0
                })
                &&& deregister matches Some(name) ==> (
                r@[0] matches DhcpServerWorkerToParentMsg::DeregisterLocalHost { name: said }
                    && said@ == name@)
            },
            _ => r@.len() == 0,
        },
{
}

/// From time to time what has run out is cleared away, and the parent is told that
/// the server is alive and which names went with the leases.
pub proof fn law_expired_leases_are_cleared_and_reported(
    leases: &mut LeaseTable,
    now: u64,
    step: ServerStep,
    mac: MacAddr,
)
    requires
        call_ensures(run_server_loop, (ServerEvent::Tick, leases, now), step),
    ensures
        !step.stop,
        final(leases)@.leases.contains_key(mac) <==> runs(old(leases)@, mac, now),
        runs(old(leases)@, mac, now) ==> final(leases)@.leases[mac] == old(leases)@.leases[mac],
        step.messages@.len() > 0,
        step.messages@[0] is Heartbeat,
        old(leases)@.leases.contains_key(mac) && !runs(old(leases)@, mac, now)
            && old(leases)@.leases[mac].hostname is Some ==> exists|i: int|
            1 <= i < step.messages@.len() && (
            #[trigger] step.messages@[i] matches DhcpServerWorkerToParentMsg::DeregisterLocalHost {
                name,
            } && Some(name@) == old(leases)@.leases[mac].hostname),
        forall|i: int|
            1 <= i < step.messages@.len() ==> (
            #[trigger] step.messages@[i] matches DhcpServerWorkerToParentMsg::DeregisterLocalHost {
                name,
            } && is_name_of_expired(old(leases)@, name@, now)),
{
    let before = old(leases)@;
    let names = choose|names: Seq<String>|
        {
            &&& step.messages@ == seq![DhcpServerWorkerToParentMsg::Heartbeat]
                + #[trigger] crate::dhcp_server::deregistrations(names)
            &&& crate::lease_table::lists_expired_hostnames(names, before.leases, now)
        };
    lemma_dropped_names(before, now, names, mac);
    if before.leases.contains_key(mac) && !runs(before, mac, now)
        && before.leases[mac].hostname is Some {
        let i = choose|i: int|
            0 <= i < names.len() && Some((#[trigger] names[i])@) == before.leases[mac].hostname;
        assert(step.messages@[i + 1] == (DhcpServerWorkerToParentMsg::DeregisterLocalHost {
            name: names[i],
        }));
    }
    assert forall|i: int| 1 <= i < step.messages@.len() implies (
    #[trigger] step.messages@[i] matches DhcpServerWorkerToParentMsg::DeregisterLocalHost { name }
        && is_name_of_expired(before, name@, now)) by {
        assert(step.messages@[i] == (DhcpServerWorkerToParentMsg::DeregisterLocalHost {
            name: names[i - 1],
        }));
        assert(is_name_of_expired(before, names[i - 1]@, now));
    }
}

/// A neighbor that the parent reports is taken to have the address at which it was
/// seen; the end of the parent is the end of the server.
pub proof fn law_reported_neighbors_have_their_addresses(
    leases: &mut LeaseTable,
    event: ServerEvent,
    now: u64,
    step: ServerStep,
)
    requires
        call_ensures(run_server_loop, (event, leases, now), step),
        !(event is Tick),
        now + 3_600_000_000_000 <= u64::MAX,
    ensures
        step.messages@.len() == 0,
        step.stop <==> event is ParentGone,
        event is ParentGone ==> final(leases)@ == old(leases)@,
        event matches ServerEvent::Parent(
            DhcpServerParentToWorkerMsg::AddNeighbor { ip_address, mac_address },
        ) ==> {
            &&& others_stay(old(leases)@, final(leases)@, mac_address)
            &&& mac_address != MacAddr(0, 0, 0, 0, 0, 0) && mac_address != MacAddr(
                255,
                255,
                255,
                255,
                255,
                255,
            ) ==> has_address(final(leases)@, mac_address, ip_address, now)
            &&& has_address(old(leases)@, mac_address, ip_address, now) ==> final(leases)@
                == old(leases)@
        },
{
}

/// What is written of an offer or an acknowledgement is read as a grant of the
/// address to the client.
pub proof fn law_written_grant_is_read(
    kind: u8,
    dhcp: DhcpMessage,
    ip: Ipv4Addr,
    config: ServerConfig,
    payload: Vec<u8>,
    seen: &[u8],
    read: Option<DhcpMessage>,
)
    requires
        call_ensures(build_dhcp_reply_payload, (kind, &dhcp, ip, &config), payload),
        dhcp.chaddr@.len() <= 16,
        seen@ == payload@,
        call_ensures(DhcpMessage::decode, (seen,), read),
    ensures
        read matches Some(got) && is_grant(got, kind, dhcp@, ip, config),
{
    let m = reply_to(dhcp@, kind, ip, config);
    lemma_grant_options(dhcp@, kind, ip, config);
    crate::dhcp::law_message_reads_back(m, payload@);
    lemma_read_grant(read->0, dhcp@, kind, ip, config);
}

} // verus!
