//! How the client and the server understand each other: what one of them writes
//! into a frame is what the other reads from it.

use crate::addr::{Ipv4Addr, MacAddr};
use crate::dhcp::{
    as_read, decoded_message, framed_message, law_frame_carries_message, law_message_reads_back,
    option_of, MessageView, OptionView, BOOT_REQUEST, CLIENT_PORT, DHCP_ACK, DHCP_DISCOVER,
    DHCP_OFFER, DHCP_REQUEST, OPT_DOMAIN_NAME_SERVER, OPT_LEASE_TIME, OPT_MESSAGE_TYPE, OPT_ROUTER,
    OPT_SERVER_IDENTIFIER, OPT_SUBNET_MASK, SERVER_PORT,
};
use crate::dhcp_client::{
    client_route, discover_message, dns_in, gateway_in, lease_secs_in, mac_bytes, mask_in,
    request_message, responds, ClientPhase, DhcpError, DhcpOffer, MessageOutcome,
    INITIAL_RETRY_DELAY_SECS,
};
use crate::dhcp_server::{
    accepted, client_mac_of, nak_to, reply_route, reply_to, sends, Reply, ServerConfig,
    LAN_LEASE_SECS,
};
use crate::packet::{law_frame_names_sender, octets, raw_frame, MAX_UDP_PAYLOAD};
use vstd::prelude::*;

verus! {

/// Whether `read` is the message `m` as it is read: the same fields, the same
/// hardware address, and under each code the same option.
pub open spec fn reads_as(read: MessageView, m: MessageView) -> bool {
    &&& read == (MessageView { hlen: m.chaddr.len() as u8, options: read.options, ..m })
    &&& forall|code: u8| #[trigger]
        option_of(read.options, code) == as_read(option_of(m.options, code))
}

/// What a frame with a given sender and message is accepted as.
proof fn lemma_accepted(frame: Seq<u8>, mac: MacAddr, read: MessageView)
    requires
        mac != MacAddr(0, 0, 0, 0, 0, 0),
        mac != MacAddr(0xff, 0xff, 0xff, 0xff, 0xff, 0xff),
        frame.subrange(6, 12) == octets(mac),
        framed_message(frame, SERVER_PORT) == Some(read),
        read.opcode == BOOT_REQUEST,
        read.hlen == 6,
        read.chaddr == mac_bytes(mac),
    ensures
        accepted(frame) == Some((read, mac)),
{
    let bytes = frame.subrange(6, 12);
    assert(bytes[0] == mac.0 && bytes[1] == mac.1 && bytes[2] == mac.2);
    assert(bytes[3] == mac.3 && bytes[4] == mac.4 && bytes[5] == mac.5);
    assert(client_mac_of(read) == Some(mac));
}

/// A frame with a message of a client is accepted by the server as coming from
/// that client, and read as the client wrote it.
pub proof fn law_server_accepts_client(
    mac: MacAddr,
    m: MessageView,
    dest_ip: Ipv4Addr,
    bytes: Seq<u8>,
)
    requires
        mac != MacAddr(0, 0, 0, 0, 0, 0),
        mac != MacAddr(0xff, 0xff, 0xff, 0xff, 0xff, 0xff),
        m.opcode == BOOT_REQUEST,
        m.chaddr == mac_bytes(mac),
        m.plain(),
        m.options.len() <= 253,
        m.spelt_by(bytes),
    ensures
        accepted(raw_frame(client_route(mac, m.ciaddr, dest_ip), bytes)) matches Some(
            (read, sender),
        ) && sender == mac && reads_as(read, m),
{
    let route = client_route(mac, m.ciaddr, dest_ip);
    let frame = raw_frame(route, bytes);
    assert(bytes.len() <= MAX_UDP_PAYLOAD);
    law_frame_carries_message(route, bytes);
    law_frame_names_sender(route, bytes);
    law_message_reads_back(m, bytes);
    lemma_accepted(frame, mac, decoded_message(bytes)->0);
}

/// A client that looks for servers is heard: the server reads a discovery of
/// that client, in the exchange that the client chose.
pub proof fn law_discovery_is_heard(mac: MacAddr, xid: u32, bytes: Seq<u8>)
    requires
        mac != MacAddr(0, 0, 0, 0, 0, 0),
        mac != MacAddr(0xff, 0xff, 0xff, 0xff, 0xff, 0xff),
        discover_message(mac, xid).spelt_by(bytes),
    ensures
        accepted(
            raw_frame(
                client_route(mac, Ipv4Addr { bits: 0 }, Ipv4Addr { bits: 0xffff_ffff }),
                bytes,
            ),
        ) matches Some((read, sender)) && sender == mac && read.xid == xid && read.message_type()
            == Some(DHCP_DISCOVER) && read.broadcast(),
{
    let m = discover_message(mac, xid);
    assert(m.message_type() == Some(DHCP_DISCOVER));
    law_server_accepts_client(mac, m, Ipv4Addr { bits: 0xffff_ffff }, bytes);
}

/// A client that asks for an address is heard: the server reads a request of that
/// client for that address from that server.
pub proof fn law_request_is_heard(
    mac: MacAddr,
    xid: u32,
    ip: Ipv4Addr,
    server_ip: Option<Ipv4Addr>,
    bytes: Seq<u8>,
)
    requires
        mac != MacAddr(0, 0, 0, 0, 0, 0),
        mac != MacAddr(0xff, 0xff, 0xff, 0xff, 0xff, 0xff),
        request_message(mac, xid, ip, server_ip, Ipv4Addr { bits: 0 }).spelt_by(bytes),
    ensures
        accepted(
            raw_frame(
                client_route(mac, Ipv4Addr { bits: 0 }, Ipv4Addr { bits: 0xffff_ffff }),
                bytes,
            ),
        ) matches Some((read, sender)) && sender == mac && read.xid == xid && read.message_type()
            == Some(DHCP_REQUEST) && read.requested_ip() == Some(ip) && read.server_identifier()
            == server_ip && read.broadcast(),
{
    let m = request_message(mac, xid, ip, server_ip, Ipv4Addr { bits: 0 });
    reveal_with_fuel(option_of, 4);
    law_server_accepts_client(mac, m, Ipv4Addr { bits: 0xffff_ffff }, bytes);
}

/// A client that asks for more time is heard: the server reads a request of that
/// client which names no address but the one in use.
pub proof fn law_renewal_is_heard(
    mac: MacAddr,
    xid: u32,
    ip: Ipv4Addr,
    dest_ip: Ipv4Addr,
    bytes: Seq<u8>,
)
    requires
        mac != MacAddr(0, 0, 0, 0, 0, 0),
        mac != MacAddr(0xff, 0xff, 0xff, 0xff, 0xff, 0xff),
        ip.bits != 0,
        request_message(mac, xid, ip, None, ip).spelt_by(bytes),
    ensures
        accepted(raw_frame(client_route(mac, ip, dest_ip), bytes)) matches Some((read, sender))
            && sender == mac && read.xid == xid && read.ciaddr == ip && read.message_type() == Some(
            DHCP_REQUEST,
        ) && read.requested_ip() is None && read.server_identifier() is None && !read.broadcast(),
{
    let m = request_message(mac, xid, ip, None, ip);
    reveal_with_fuel(option_of, 2);
    law_server_accepts_client(mac, m, dest_ip, bytes);
}

/// A frame with a message of the server is read by the client as the server wrote
/// it.
pub proof fn law_client_reads_server(config: ServerConfig, reply: Reply, m: MessageView)
    requires
        m.spelt_by(reply.payload@),
        m.plain(),
        m.chaddr.len() <= 16,
        m.options.len() <= 253,
    ensures
        reply.payload@.len() <= MAX_UDP_PAYLOAD,
        framed_message(
            raw_frame(reply_route(config, reply), reply.payload@),
            CLIENT_PORT,
        ) matches Some(read) && reads_as(read, m),
{
    law_frame_carries_message(reply_route(config, reply), reply.payload@);
    law_message_reads_back(m, reply.payload@);
}

/// What is read of an offer or an acknowledgement.
proof fn lemma_grant_reads_as(
    config: ServerConfig,
    m: MessageView,
    msg_type: u8,
    ip: Ipv4Addr,
    read: MessageView,
)
    requires
        reads_as(read, reply_to(m, msg_type, ip, config)),
    ensures
        read.xid == m.xid,
        read.yiaddr == ip,
        read.message_type() == Some(msg_type),
        read.server_identifier() == Some(config.server_ip),
        mask_in(read) == config.subnet_mask,
        gateway_in(read) == Some(config.server_ip),
        dns_in(read) == seq![config.server_ip],
        lease_secs_in(read) == LAN_LEASE_SECS,
{
    let options = reply_to(m, msg_type, ip, config).options;
    assert(option_of(options, OPT_MESSAGE_TYPE) == Some(OptionView::Kind(msg_type)) && option_of(
        options,
        OPT_SERVER_IDENTIFIER,
    ) == Some(OptionView::Address(config.server_ip)) && option_of(options, OPT_SUBNET_MASK) == Some(
        OptionView::Address(config.subnet_mask),
    ) && option_of(options, OPT_ROUTER) == Some(OptionView::Addresses(seq![config.server_ip]))
        && option_of(options, OPT_DOMAIN_NAME_SERVER) == Some(
        OptionView::Addresses(seq![config.server_ip]),
    ) && option_of(options, OPT_LEASE_TIME) == Some(OptionView::Seconds(LAN_LEASE_SECS))) by {
        reveal_with_fuel(option_of, 7);
    }
}

/// A client that looks for servers takes the offer that a server makes it: the
/// address that the server offers, from the server that offers it.
pub proof fn law_offer_is_taken(
    config: ServerConfig,
    m: MessageView,
    ip: Ipv4Addr,
    dest: (MacAddr, Ipv4Addr),
    reply: Reply,
    delay: u32,
    now: u64,
    r: (ClientPhase, MessageOutcome),
)
    requires
        m.chaddr.len() <= 16,
        sends(reply, reply_to(m, DHCP_OFFER, ip, config), dest),
        framed_message(
            raw_frame(reply_route(config, reply), reply.payload@),
            CLIENT_PORT,
        ) matches Some(read) ==> responds(
            ClientPhase::Discover { xid: m.xid, retry_delay_secs: delay },
            read,
            now,
            r,
        ),
    ensures
        r.0 == (ClientPhase::Request {
            xid: m.xid,
            offer: DhcpOffer { offered_ip: ip, server_ip: Some(config.server_ip) },
            retry_delay_secs: INITIAL_RETRY_DELAY_SECS,
        }),
        r.1 is Advanced,
{
    law_client_reads_server(config, reply, reply_to(m, DHCP_OFFER, ip, config));
    lemma_grant_reads_as(
        config,
        m,
        DHCP_OFFER,
        ip,
        framed_message(raw_frame(reply_route(config, reply), reply.payload@), CLIENT_PORT)->0,
    );
}

/// A client that awaits a decision takes the address that a server acknowledges,
/// with the network that the server describes: its netmask, itself as the router
/// and the name server, and the time for which it lets the address.
pub proof fn law_acknowledgement_is_taken(
    config: ServerConfig,
    m: MessageView,
    ip: Ipv4Addr,
    dest: (MacAddr, Ipv4Addr),
    reply: Reply,
    phase: ClientPhase,
    now: u64,
    r: (ClientPhase, MessageOutcome),
)
    requires
        m.chaddr.len() <= 16,
        sends(reply, reply_to(m, DHCP_ACK, ip, config), dest),
        phase matches ClientPhase::Request { xid, .. } && xid == m.xid || (
        phase matches ClientPhase::Renew { xid, .. } && xid == m.xid),
        framed_message(
            raw_frame(reply_route(config, reply), reply.payload@),
            CLIENT_PORT,
        ) matches Some(read) ==> responds(phase, read, now, r),
    ensures
        r.0 matches ClientPhase::Bound { ack, bound_at } && bound_at == now && ack.ip == ip
            && ack.mask == config.subnet_mask && ack.gateway == Some(config.server_ip)
            && ack.server_ip == Some(config.server_ip) && ack.lease_secs == LAN_LEASE_SECS
            && ack.dns_servers@ == seq![config.server_ip],
        r.1 is Granted,
{
    law_client_reads_server(config, reply, reply_to(m, DHCP_ACK, ip, config));
    lemma_grant_reads_as(
        config,
        m,
        DHCP_ACK,
        ip,
        framed_message(raw_frame(reply_route(config, reply), reply.payload@), CLIENT_PORT)->0,
    );
}

/// A client that awaits a decision gives up where the server refuses.
pub proof fn law_refusal_is_heeded(
    config: ServerConfig,
    m: MessageView,
    dest: (MacAddr, Ipv4Addr),
    reply: Reply,
    phase: ClientPhase,
    now: u64,
    r: (ClientPhase, MessageOutcome),
)
    requires
        m.chaddr.len() <= 16,
        sends(reply, nak_to(m, config), dest),
        phase matches ClientPhase::Request { xid, .. } && xid == m.xid || (
        phase matches ClientPhase::Renew { xid, .. } && xid == m.xid),
        framed_message(
            raw_frame(reply_route(config, reply), reply.payload@),
            CLIENT_PORT,
        ) matches Some(read) ==> responds(phase, read, now, r),
    ensures
        r.0 == phase,
        r.1 == MessageOutcome::Failed(DhcpError::Nak),
{
    reveal_with_fuel(option_of, 3);
    law_client_reads_server(config, reply, nak_to(m, config));
}

} // verus!
