//! What the DHCP server on the LAN does with each packet.

use crate::addr::{
    netmask, prefix_len_to_mask, subnet_in, Ipv4Addr, Ipv4Net, MacAddr, NANOS_PER_SEC,
};
use crate::dhcp::{
    framed_message, parse_dhcp_payload, DhcpMessage, MessageView, OptionValue, OptionView,
    BOOT_REPLY, BOOT_REQUEST, DHCP_ACK, DHCP_DECLINE, DHCP_DISCOVER, DHCP_NAK, DHCP_OFFER,
    DHCP_RELEASE, DHCP_REQUEST, OPT_DOMAIN_NAME_SERVER, OPT_HOSTNAME, OPT_LEASE_TIME,
    OPT_MESSAGE_TYPE, OPT_ROUTER, OPT_SERVER_IDENTIFIER, OPT_SUBNET_MASK, CLIENT_PORT, SERVER_PORT,
};
use crate::hostname::{sanitize_hostname, sanitized};
use crate::ipc::{DhcpServerParentToWorkerMsg, DhcpServerWorkerToParentMsg};
use crate::lease_table::{
    answers, exclusive, handle_lease_command, law_hostnames_stay_exclusive,
    lists_expired_hostnames, name_of, named, names_exclusive, LeaseCommand, LeaseConfirmation,
    LeaseReply, LeaseTable, LeaseTableState, NEIGHBOR_HOLD_DURATION,
};
use crate::packet::{
    build_raw_packet, raw_frame, read_ethernet, PayloadTooLong, UdpRoute, MAX_UDP_PAYLOAD,
};
use vstd::prelude::*;

verus! {

/// How long a LAN lease lasts, in seconds.
pub const LAN_LEASE_SECS: u32 = 3600;

/// How long a LAN lease lasts.
pub const LAN_LEASE_DURATION: u64 = 3600 * NANOS_PER_SEC;

/// How long an address found in conflict is held back.
pub const CONFLICT_HOLD_DURATION: u64 = 300 * NANOS_PER_SEC;

/// How long the server waits for an address probe to be answered.
pub const ARP_RESOLUTION_DELAY: u64 = 100_000_000;

/// The port to which an address probe is sent.
pub const DISCARD_PORT: u16 = 9;

/// How often the server says that it is alive and clears expired leases away.
pub const SERVER_HEARTBEAT_INTERVAL: u64 = 2 * NANOS_PER_SEC;

/// The server's own addresses.
#[derive(Clone, Copy, Debug, PartialEq, Eq, Structural)]
pub struct ServerConfig {
    pub server_ip: Ipv4Addr,
    pub subnet_mask: Ipv4Addr,
    pub server_mac: MacAddr,
    pub net: Ipv4Net,
}

impl ServerConfig {
    pub open spec fn wf(self) -> bool {
        self.net.wf()
    }

    /// The configuration of a server with the given address and subnet.
    pub fn new(net: Ipv4Net, server_mac: MacAddr) -> (r: ServerConfig)
        ensures
            r.net == net,
            r.server_ip == net.addr,
            r.subnet_mask.bits == netmask(net.prefix_len),
            r.server_mac == server_mac,
    {
        ServerConfig {
            server_ip: net.addr,
            subnet_mask: prefix_len_to_mask(net.prefix_len),
            server_mac,
            net,
        }
    }

    /// The configuration of a server whose address and subnet are spelt
    /// `a.b.c.d/len`.
    pub fn parse(lan_ip: &str, server_mac: MacAddr) -> (r: Option<ServerConfig>)
        ensures
            match r {
                Some(config) => {
                    &&& subnet_in(lan_ip@) == Some(config.net)
                    &&& config.wf()
                    &&& config.server_ip == config.net.addr
                    &&& config.subnet_mask.bits == netmask(config.net.prefix_len)
                    &&& config.server_mac == server_mac
                },
                None => subnet_in(lan_ip@) is None,
            },
    {
        match Ipv4Net::parse(lan_ip) {
            Some(net) => Some(ServerConfig::new(net, server_mac)),
            None => None,
        }
    }
}

/// The hardware address of the client that sent a message: six bytes, neither
/// all zero nor all ones.
pub open spec fn client_mac_of(m: MessageView) -> Option<MacAddr> {
    let mac = MacAddr(m.chaddr[0], m.chaddr[1], m.chaddr[2], m.chaddr[3], m.chaddr[4], m.chaddr[5]);
    if m.hlen != 6 || m.chaddr.len() < 6 || mac == MacAddr(0, 0, 0, 0, 0, 0) || mac == MacAddr(
        0xff,
        0xff,
        0xff,
        0xff,
        0xff,
        0xff,
    ) {
        None
    } else {
        Some(mac)
    }
}

pub fn extract_client_mac(dhcp: &DhcpMessage) -> (r: Option<MacAddr>)
    ensures
        r == client_mac_of(dhcp@),
{
    if dhcp.hlen != 6 {
        return None;
    }
    let chaddr = &dhcp.chaddr;
    if chaddr.len() < 6 {
        return None;
    }
    let mac = MacAddr(chaddr[0], chaddr[1], chaddr[2], chaddr[3], chaddr[4], chaddr[5]);
    if mac == MacAddr::zero() || mac == MacAddr::broadcast() {
        return None;
    }
    Some(mac)
}

/// Whether a packet that no relay forwarded was sent by a station other than
/// the client that it speaks for.
pub fn is_spoofed_l2_packet(eth_src: MacAddr, client_mac: MacAddr, giaddr: Ipv4Addr) -> (r: bool)
    ensures
        r == (giaddr.bits == 0 && eth_src != client_mac),
{
    giaddr.bits == 0 && eth_src != client_mac
}

/// Whether a request is meant for this server: it names it, or no server.
pub fn should_process_request_server_id(dhcp: &DhcpMessage, server_ip: Ipv4Addr) -> (r: bool)
    ensures
        r == (dhcp@.server_identifier() is None || dhcp@.server_identifier() == Some(server_ip)),
{
    match dhcp.server_identifier() {
        Some(id) => id == server_ip,
        None => true,
    }
}

/// The hostname that a client asks to be registered under.
pub open spec fn hostname_of(m: MessageView) -> Option<Seq<char>> {
    match m.hostname() {
        Some(raw) => sanitized(raw),
        None => None,
    }
}

pub fn extract_sanitized_hostname(dhcp: &DhcpMessage) -> (r: Option<String>)
    ensures
        name_of(r) == hostname_of(dhcp@),
{
    match dhcp.option(OPT_HOSTNAME) {
        Some(OptionValue::Text(name)) => sanitize_hostname(name.as_str()),
        _ => None,
    }
}

/// Where an answer is sent: to everybody where the client asked for that, else
/// to the client at the address it is given.
pub open spec fn destination(broadcast: bool, client_mac: MacAddr, ip: Ipv4Addr) -> (
    MacAddr,
    Ipv4Addr,
) {
    if broadcast {
        (MacAddr(0xff, 0xff, 0xff, 0xff, 0xff, 0xff), Ipv4Addr { bits: 0xffff_ffff })
    } else {
        (client_mac, ip)
    }
}

pub fn get_dest_mac_ip(broadcast: bool, client_mac: MacAddr, leased_ip: Ipv4Addr) -> (r: (
    MacAddr,
    Ipv4Addr,
))
    ensures
        r == destination(broadcast, client_mac, leased_ip),
{
    if broadcast {
        (MacAddr::broadcast(), Ipv4Addr::broadcast())
    } else {
        (client_mac, leased_ip)
    }
}

/// The offer or acknowledgement by which `leased_ip` is granted in answer to
/// `m`.
pub open spec fn reply_to(
    m: MessageView,
    msg_type: u8,
    leased_ip: Ipv4Addr,
    config: ServerConfig,
) -> MessageView {
    MessageView {
        opcode: BOOT_REPLY,
        hlen: m.chaddr.len() as u8,
        xid: m.xid,
        flags: m.flags,
        ciaddr: Ipv4Addr { bits: 0 },
        yiaddr: leased_ip,
        siaddr: config.server_ip,
        giaddr: Ipv4Addr { bits: 0 },
        chaddr: m.chaddr,
        options: seq![
            (OPT_MESSAGE_TYPE, OptionView::Kind(msg_type)),
            (OPT_SERVER_IDENTIFIER, OptionView::Address(config.server_ip)),
            (OPT_SUBNET_MASK, OptionView::Address(config.subnet_mask)),
            (OPT_ROUTER, OptionView::Addresses(seq![config.server_ip])),
            (OPT_DOMAIN_NAME_SERVER, OptionView::Addresses(seq![config.server_ip])),
            (OPT_LEASE_TIME, OptionView::Seconds(LAN_LEASE_SECS)),
        ],
    }
}

/// The refusal of the request `m`.
pub open spec fn nak_to(m: MessageView, config: ServerConfig) -> MessageView {
    MessageView {
        opcode: BOOT_REPLY,
        hlen: m.chaddr.len() as u8,
        xid: m.xid,
        flags: 0,
        ciaddr: Ipv4Addr { bits: 0 },
        yiaddr: Ipv4Addr { bits: 0 },
        siaddr: Ipv4Addr { bits: 0 },
        giaddr: Ipv4Addr { bits: 0 },
        chaddr: m.chaddr,
        options: seq![
            (OPT_MESSAGE_TYPE, OptionView::Kind(DHCP_NAK)),
            (OPT_SERVER_IDENTIFIER, OptionView::Address(config.server_ip)),
        ],
    }
}

/// Builds the offer or acknowledgement by which `leased_ip` is granted.
pub fn build_dhcp_reply(
    msg_type: u8,
    dhcp: &DhcpMessage,
    leased_ip: Ipv4Addr,
    config: &ServerConfig,
) -> (r: DhcpMessage)
    requires
        dhcp@.chaddr.len() <= 16,
    ensures
        r@ == reply_to(dhcp@, msg_type, leased_ip, *config),
        r@.encodable(),
{
    let mut reply = DhcpMessage::new();
    reply.opcode = BOOT_REPLY;
    reply.xid = dhcp.xid;
    reply.flags = dhcp.flags;
    reply.yiaddr = leased_ip;
    reply.siaddr = config.server_ip;
    reply.hlen = dhcp.chaddr.len() as u8;
    reply.chaddr = dhcp.chaddr.clone();
    reply.options.push((OPT_MESSAGE_TYPE, OptionValue::Kind(msg_type)));
    reply.options.push((OPT_SERVER_IDENTIFIER, OptionValue::Address(config.server_ip)));
    reply.options.push((OPT_SUBNET_MASK, OptionValue::Address(config.subnet_mask)));
    reply.options.push((OPT_ROUTER, OptionValue::Addresses(vec![config.server_ip])));
    reply.options.push((OPT_DOMAIN_NAME_SERVER, OptionValue::Addresses(vec![config.server_ip])));
    reply.options.push((OPT_LEASE_TIME, OptionValue::Seconds(LAN_LEASE_SECS)));
    proof {
        assert(reply.options@[3].1@->Addresses_0 =~= seq![config.server_ip]);
        assert(reply.options@[4].1@->Addresses_0 =~= seq![config.server_ip]);
        assert(reply@.options =~= reply_to(dhcp@, msg_type, leased_ip, *config).options);
        reveal_with_fuel(crate::dhcp::address_bytes, 2);
    }
    reply
}

/// Builds the refusal of a request.
pub fn build_dhcp_nak(dhcp: &DhcpMessage, config: &ServerConfig) -> (r: DhcpMessage)
    requires
        dhcp@.chaddr.len() <= 16,
    ensures
        r@ == nak_to(dhcp@, *config),
        r@.encodable(),
{
    let mut nak = DhcpMessage::new();
    nak.opcode = BOOT_REPLY;
    nak.xid = dhcp.xid;
    nak.hlen = dhcp.chaddr.len() as u8;
    nak.chaddr = dhcp.chaddr.clone();
    nak.options.push((OPT_MESSAGE_TYPE, OptionValue::Kind(DHCP_NAK)));
    nak.options.push((OPT_SERVER_IDENTIFIER, OptionValue::Address(config.server_ip)));
    assert(nak@.options =~= nak_to(dhcp@, *config).options);
    nak
}

/// A message to be framed and sent.
pub struct Reply {
    pub dest_mac: MacAddr,
    pub dest_ip: Ipv4Addr,
    pub payload: Vec<u8>,
}

/// The addresses and ports of a reply.
pub open spec fn reply_route(config: ServerConfig, reply: Reply) -> UdpRoute {
    UdpRoute {
        src_mac: config.server_mac,
        dst_mac: reply.dest_mac,
        src_ip: config.server_ip,
        dst_ip: reply.dest_ip,
        src_port: SERVER_PORT,
        dst_port: CLIENT_PORT,
    }
}

/// The frame in which a reply is sent.
pub fn send_dhcp_frame(config: &ServerConfig, reply: &Reply) -> (r: Result<Vec<u8>, PayloadTooLong>)
    ensures
        match r {
            Ok(frame) => frame@ == raw_frame(reply_route(*config, *reply), reply.payload@),
            Err(e) => e.len == reply.payload@.len() && e.len > MAX_UDP_PAYLOAD,
        },
{
    let route = UdpRoute {
        src_mac: config.server_mac,
        dst_mac: reply.dest_mac,
        src_ip: config.server_ip,
        dst_ip: reply.dest_ip,
        src_port: SERVER_PORT,
        dst_port: CLIENT_PORT,
    };
    build_raw_packet(&route, reply.payload.as_slice())
}

/// Whether `r` is the message `m`, addressed to `dest`.
pub open spec fn sends(r: Reply, m: MessageView, dest: (MacAddr, Ipv4Addr)) -> bool {
    &&& m.spelt_by(r.payload@)
    &&& (r.dest_mac, r.dest_ip) == dest
}

/// Builds and encodes the offer or acknowledgement by which `leased_ip` is
/// granted.
pub fn build_dhcp_reply_payload(
    msg_type: u8,
    dhcp: &DhcpMessage,
    leased_ip: Ipv4Addr,
    config: &ServerConfig,
) -> (r: Vec<u8>)
    requires
        dhcp@.chaddr.len() <= 16,
    ensures
        reply_to(dhcp@, msg_type, leased_ip, *config).spelt_by(r@),
{
    build_dhcp_reply(msg_type, dhcp, leased_ip, config).encode()
}

fn grant(
    msg_type: u8,
    dhcp: &DhcpMessage,
    client_mac: MacAddr,
    leased_ip: Ipv4Addr,
    config: &ServerConfig,
) -> (r: Reply)
    requires
        dhcp@.chaddr.len() <= 16,
    ensures
        sends(
            r,
            reply_to(dhcp@, msg_type, leased_ip, *config),
            destination(dhcp@.broadcast(), client_mac, leased_ip),
        ),
{
    let payload = build_dhcp_reply_payload(msg_type, dhcp, leased_ip, config);
    let (dest_mac, dest_ip) = get_dest_mac_ip(dhcp.broadcast(), client_mac, leased_ip);
    Reply { dest_mac, dest_ip, payload }
}

/// Refuses a request.
pub fn send_dhcp_nak(dhcp: &DhcpMessage, client_mac: MacAddr, config: &ServerConfig) -> (r: Reply)
    requires
        dhcp@.chaddr.len() <= 16,
    ensures
        sends(
            r,
            nak_to(dhcp@, *config),
            destination(dhcp@.broadcast(), client_mac, (Ipv4Addr { bits: 0xffff_ffff })),
        ),
{
    let payload = build_dhcp_nak(dhcp, config).encode();
    let (dest_mac, dest_ip) = get_dest_mac_ip(dhcp.broadcast(), client_mac, Ipv4Addr::broadcast());
    Reply { dest_mac, dest_ip, payload }
}

/// What the server is to do next.
pub enum ServerAction {
    /// Nothing.
    Nothing,
    /// Probe whether an address is in use, then go on with the offer.
    ProbeOffer { dhcp: DhcpMessage, client_mac: MacAddr, ip: Ipv4Addr },
    /// Send an offer or a refusal.
    Send(Reply),
    /// Say that there is no address left to offer.
    PoolExhausted,
    /// Probe whether an address is in use, then go on with the acknowledgement.
    ProbeAck { dhcp: DhcpMessage, client_mac: MacAddr, confirmation: LeaseConfirmation },
    /// Send an acknowledgement, then tell of the hostname given up and of the
    /// hostname gained.
    Ack {
        reply: Reply,
        ip: Ipv4Addr,
        deregister: Option<String>,
        register: Option<String>,
    },
    /// Tell of the hostname given up with a released address.
    Released { ip: Ipv4Addr, deregister: Option<String> },
}

/// Whether `r` offers `ip` to the client that sent `m`, and `after` is the table
/// with the lease.
pub open spec fn offers(
    config: ServerConfig,
    m: MessageView,
    mac: MacAddr,
    ip: Ipv4Addr,
    before: LeaseTableState,
    now: u64,
    r: ServerAction,
    after: LeaseTableState,
) -> bool {
    &&& after == before.with_lease(mac, ip, now + LAN_LEASE_DURATION, hostname_of(m))
    &&& r matches ServerAction::Send(reply)
    &&& sends(
        reply,
        reply_to(m, DHCP_OFFER, ip, config),
        destination(m.broadcast(), mac, ip),
    )
}

/// Whether `r` probes the next candidate for the client that sent `m`, or says
/// that there is none, and `after` is the table with the candidate held.
pub open spec fn probes_candidate(
    config: ServerConfig,
    m: MessageView,
    mac: MacAddr,
    before: LeaseTableState,
    now: u64,
    r: ServerAction,
    after: LeaseTableState,
) -> bool {
    let cmd = LeaseCommand::AllocateCandidate {
        client_mac: mac,
        net: config.net,
        server_ip: config.server_ip,
    };
    match r {
        ServerAction::ProbeOffer { dhcp, client_mac, ip } => {
            &&& dhcp@ == m
            &&& client_mac == mac
            &&& answers(cmd, before, now, LeaseReply::Ip(Some(ip)), after)
        },
        ServerAction::PoolExhausted => answers(cmd, before, now, LeaseReply::Ip(None), after),
        _ => false,
    }
}

/// Whether `r` answers the discovery `m`: the address that the client has an
/// active lease on is offered again; otherwise a candidate is probed.
pub open spec fn begins_discover(
    config: ServerConfig,
    m: MessageView,
    mac: MacAddr,
    before: LeaseTableState,
    now: u64,
    r: ServerAction,
    after: LeaseTableState,
) -> bool {
    match before.target(mac, None, now) {
        Some(ip) => offers(config, m, mac, ip, before, now, r, after),
        None => probes_candidate(config, m, mac, before, now, r, after),
    }
}

/// Whether `r` goes on with the discovery `m` after `ip` was probed: where
/// somebody else was found to use it, it is held back and the next candidate is
/// probed; otherwise it is offered.
pub open spec fn continues_discover(
    config: ServerConfig,
    m: MessageView,
    mac: MacAddr,
    ip: Ipv4Addr,
    before: LeaseTableState,
    now: u64,
    r: ServerAction,
    after: LeaseTableState,
) -> bool {
    if before.ip_taken_by_other(ip, mac, now) {
        probes_candidate(
            config,
            m,
            mac,
            before.with_conflict(ip, now + CONFLICT_HOLD_DURATION),
            now,
            r,
            after,
        )
    } else {
        offers(config, m, mac, ip, before, now, r, after)
    }
}

/// Whether `r` refuses the request `m`.
pub open spec fn refuses(
    config: ServerConfig,
    m: MessageView,
    mac: MacAddr,
    r: ServerAction,
) -> bool {
    &&& r matches ServerAction::Send(reply)
    &&& sends(
        reply,
        nak_to(m, config),
        destination(m.broadcast(), mac, Ipv4Addr { bits: 0xffff_ffff }),
    )
}

/// Whether `r` answers the request `m`: one for another server is left alone;
/// one for an address that the client may not have is refused; otherwise the
/// address is confirmed and then probed.
pub open spec fn begins_request(
    config: ServerConfig,
    m: MessageView,
    mac: MacAddr,
    before: LeaseTableState,
    now: u64,
    r: ServerAction,
    after: LeaseTableState,
) -> bool {
    if m.server_identifier() is Some && m.server_identifier() != Some(config.server_ip) {
        r is Nothing && after == before
    } else {
        let confirms = |confirmation: Option<LeaseConfirmation>|
            crate::lease_table::confirms(
                before,
                after,
                mac,
                m.requested_ip(),
                config.server_ip,
                config.net,
                LAN_LEASE_DURATION,
                hostname_of(m),
                now,
                confirmation,
            );
        match r {
            ServerAction::ProbeAck { dhcp, client_mac, confirmation } => {
                &&& dhcp@ == m
                &&& client_mac == mac
                &&& confirms(Some(confirmation))
            },
            _ => refuses(config, m, mac, r) && confirms(None),
        }
    }
}

/// Whether `r` goes on with the request `m` after the confirmed address was
/// probed: where somebody else was found to use it, it is held back and the
/// request refused; otherwise it is acknowledged and the hostnames are told.
pub open spec fn continues_request(
    config: ServerConfig,
    m: MessageView,
    mac: MacAddr,
    confirmation: LeaseConfirmation,
    before: LeaseTableState,
    now: u64,
    r: ServerAction,
    after: LeaseTableState,
) -> bool {
    if before.ip_taken_by_other(confirmation.ip, mac, now) {
        &&& refuses(config, m, mac, r)
        &&& after == before.with_conflict(confirmation.ip, now + CONFLICT_HOLD_DURATION)
    } else {
        &&& after == before
        &&& r matches ServerAction::Ack { reply, ip, deregister, register }
        &&& ip == confirmation.ip
        &&& deregister == confirmation.old_hostname_to_deregister
        &&& register == confirmation.hostname
        &&& sends(
            reply,
            reply_to(m, DHCP_ACK, ip, config),
            destination(m.broadcast(), mac, ip),
        )
    }
}

/// Whether `r` tells of the address and the hostname that `mac` gave up, and
/// `after` is the table without its lease.
pub open spec fn releases(
    mac: MacAddr,
    before: LeaseTableState,
    r: ServerAction,
    after: LeaseTableState,
) -> bool {
    &&& after.leases == before.leases.remove(mac)
    &&& after.conflicts == before.conflicts
    &&& if before.leases.contains_key(mac) {
        &&& r matches ServerAction::Released { ip, deregister }
        &&& ip == before.leases[mac].ip
        &&& name_of(deregister) == before.leases[mac].hostname
    } else {
        r is Nothing
    }
}

/// The message in a frame to the server, and the client that sent it. Frames
/// that carry no request, that name no client, or that somebody else sent in
/// its name are not accepted.
pub open spec fn accepted(frame: Seq<u8>) -> Option<(MessageView, MacAddr)> {
    match framed_message(frame, SERVER_PORT) {
        Some(m) => {
            let source = MacAddr(frame[6], frame[7], frame[8], frame[9], frame[10], frame[11]);
            match client_mac_of(m) {
                Some(mac) => if m.opcode == BOOT_REQUEST && !(m.giaddr.bits == 0 && source != mac) {
                    Some((m, mac))
                } else {
                    None
                },
                None => None,
            }
        },
        None => None,
    }
}

/// Whether `r` is what the server does with a frame.
pub open spec fn handles_packet(
    config: ServerConfig,
    frame: Seq<u8>,
    before: LeaseTableState,
    now: u64,
    r: ServerAction,
    after: LeaseTableState,
) -> bool {
    match accepted(frame) {
        Some((m, mac)) => match m.message_type() {
            Some(kind) => if kind == DHCP_DISCOVER {
                begins_discover(config, m, mac, before, now, r, after)
            } else if kind == DHCP_REQUEST {
                begins_request(config, m, mac, before, now, r, after)
            } else if kind == DHCP_DECLINE || kind == DHCP_RELEASE {
                releases(mac, before, r, after)
            } else {
                r is Nothing && after == before
            },
            None => r is Nothing && after == before,
        },
        None => r is Nothing && after == before,
    }
}

/// The clock reading up to which every deadline of the server can be written
/// down.
pub open spec fn clock_fits(now: u64) -> bool {
    now + LAN_LEASE_DURATION <= u64::MAX
}

fn probe_and_allocate_ip(
    config: &ServerConfig,
    dhcp: DhcpMessage,
    client_mac: MacAddr,
    leases: &mut LeaseTable,
    now: u64,
) -> (r: ServerAction)
    requires
        old(leases).wf(),
        config.wf(),
        clock_fits(now),
    ensures
        final(leases).wf(),
        probes_candidate(*config, dhcp@, client_mac, old(leases)@, now, r, final(leases)@),
{
    match leases.allocate_candidate(client_mac, config.net, config.server_ip, now) {
        Some(ip) => ServerAction::ProbeOffer { dhcp, client_mac, ip },
        None => ServerAction::PoolExhausted,
    }
}

fn confirm_and_offer(
    config: &ServerConfig,
    dhcp: &DhcpMessage,
    client_mac: MacAddr,
    ip: Ipv4Addr,
    leases: &mut LeaseTable,
    now: u64,
) -> (r: ServerAction)
    requires
        old(leases).wf(),
        clock_fits(now),
        dhcp@.chaddr.len() <= 16,
    ensures
        final(leases).wf(),
        offers(*config, dhcp@, client_mac, ip, old(leases)@, now, r, final(leases)@),
{
    let hostname = extract_sanitized_hostname(dhcp);
    handle_lease_command(
        LeaseCommand::ConfirmLease { client_mac, ip, duration: LAN_LEASE_DURATION, hostname },
        leases,
        now,
    );
    ServerAction::Send(grant(DHCP_OFFER, dhcp, client_mac, ip, config))
}

/// Answers a discovery.
pub fn handle_dhcp_discover(
    config: &ServerConfig,
    dhcp: DhcpMessage,
    client_mac: MacAddr,
    leases: &mut LeaseTable,
    now: u64,
) -> (r: ServerAction)
    requires
        old(leases).wf(),
        config.wf(),
        clock_fits(now),
        dhcp@.chaddr.len() <= 16,
    ensures
        final(leases).wf(),
        begins_discover(*config, dhcp@, client_mac, old(leases)@, now, r, final(leases)@),
{
    let existing: Option<Ipv4Addr> = match leases.get(&client_mac, now) {
        Some(lease) => Some(lease.ip),
        None => None,
    };
    match existing {
        Some(ip) => confirm_and_offer(config, &dhcp, client_mac, ip, leases, now),
        None => probe_and_allocate_ip(config, dhcp, client_mac, leases, now),
    }
}

/// Goes on with a discovery once `ip` was probed.
pub fn continue_dhcp_discover(
    config: &ServerConfig,
    dhcp: DhcpMessage,
    client_mac: MacAddr,
    ip: Ipv4Addr,
    leases: &mut LeaseTable,
    now: u64,
) -> (r: ServerAction)
    requires
        old(leases).wf(),
        config.wf(),
        clock_fits(now),
        dhcp@.chaddr.len() <= 16,
    ensures
        final(leases).wf(),
        continues_discover(*config, dhcp@, client_mac, ip, old(leases)@, now, r, final(leases)@),
{
    if verify_arp_conflict(ip, client_mac, leases, now) {
        probe_and_allocate_ip(config, dhcp, client_mac, leases, now)
    } else {
        confirm_and_offer(config, &dhcp, client_mac, ip, leases, now)
    }
}

/// Whether somebody else was found to use `leased_ip`; if so, it is held back.
pub fn verify_arp_conflict(
    leased_ip: Ipv4Addr,
    client_mac: MacAddr,
    leases: &mut LeaseTable,
    now: u64,
) -> (r: bool)
    requires
        old(leases).wf(),
        clock_fits(now),
    ensures
        final(leases).wf(),
        r == old(leases)@.ip_taken_by_other(leased_ip, client_mac, now),
        final(leases)@ == if r {
            old(leases)@.with_conflict(leased_ip, now + CONFLICT_HOLD_DURATION)
        } else {
            old(leases)@
        },
{
    if leases.is_ip_taken_by_other(leased_ip, client_mac, now) {
        leases.record_conflict(leased_ip, CONFLICT_HOLD_DURATION, now);
        true
    } else {
        false
    }
}

/// Answers a request.
pub fn handle_dhcp_request(
    config: &ServerConfig,
    dhcp: DhcpMessage,
    client_mac: MacAddr,
    leases: &mut LeaseTable,
    now: u64,
) -> (r: ServerAction)
    requires
        old(leases).wf(),
        config.wf(),
        clock_fits(now),
        dhcp@.chaddr.len() <= 16,
    ensures
        final(leases).wf(),
        begins_request(*config, dhcp@, client_mac, old(leases)@, now, r, final(leases)@),
{
    if !should_process_request_server_id(&dhcp, config.server_ip) {
        return ServerAction::Nothing;
    }
    let requested_ip = dhcp.requested_ip();
    let requested_hostname = extract_sanitized_hostname(&dhcp);
    let confirmed = leases.validate_and_confirm(
        client_mac,
        requested_ip,
        config.server_ip,
        config.net,
        LAN_LEASE_DURATION,
        requested_hostname,
        now,
    );
    match confirmed {
        Some(confirmation) => ServerAction::ProbeAck { dhcp, client_mac, confirmation },
        None => ServerAction::Send(send_dhcp_nak(&dhcp, client_mac, config)),
    }
}

/// Goes on with a request once the confirmed address was probed.
pub fn continue_dhcp_request(
    config: &ServerConfig,
    dhcp: DhcpMessage,
    client_mac: MacAddr,
    confirmation: LeaseConfirmation,
    leases: &mut LeaseTable,
    now: u64,
) -> (r: ServerAction)
    requires
        old(leases).wf(),
        clock_fits(now),
        dhcp@.chaddr.len() <= 16,
    ensures
        final(leases).wf(),
        continues_request(
            *config,
            dhcp@,
            client_mac,
            confirmation,
            old(leases)@,
            now,
            r,
            final(leases)@,
        ),
{
    let leased_ip = confirmation.ip;
    if verify_arp_conflict(leased_ip, client_mac, leases, now) {
        return ServerAction::Send(send_dhcp_nak(&dhcp, client_mac, config));
    }
    ServerAction::Ack {
        reply: grant(DHCP_ACK, &dhcp, client_mac, leased_ip, config),
        ip: leased_ip,
        deregister: confirmation.old_hostname_to_deregister,
        register: confirmation.hostname,
    }
}

/// Takes back the address that a client declined or released.
pub fn handle_dhcp_release(client_mac: MacAddr, leases: &mut LeaseTable) -> (r: ServerAction)
    requires
        old(leases).wf(),
    ensures
        final(leases).wf(),
        releases(client_mac, old(leases)@, r, final(leases)@),
{
    match leases.remove(&client_mac) {
        Some(lease) => ServerAction::Released { ip: lease.ip, deregister: lease.hostname },
        None => ServerAction::Nothing,
    }
}

/// Acts on a frame that arrived on the LAN.
pub fn process_incoming_packet(
    buf: &[u8],
    config: &ServerConfig,
    leases: &mut LeaseTable,
    now: u64,
) -> (r: ServerAction)
    requires
        old(leases).wf(),
        config.wf(),
        clock_fits(now),
    ensures
        final(leases).wf(),
        handles_packet(*config, buf@, old(leases)@, now, r, final(leases)@),
{
    let dhcp = match parse_dhcp_payload(buf, SERVER_PORT) {
        Some(dhcp) => dhcp,
        None => {
            return ServerAction::Nothing;
        },
    };
    if dhcp.opcode != BOOT_REQUEST {
        return ServerAction::Nothing;
    }
    let client_mac = match extract_client_mac(&dhcp) {
        Some(mac) => mac,
        None => {
            return ServerAction::Nothing;
        },
    };
    let source = match read_ethernet(buf) {
        Some(frame) => frame.source,
        None => {
            return ServerAction::Nothing;
        },
    };
    if is_spoofed_l2_packet(source, client_mac, dhcp.giaddr) {
        return ServerAction::Nothing;
    }
    match dhcp.message_type() {
        Some(kind) => if kind == DHCP_DISCOVER {
            handle_dhcp_discover(config, dhcp, client_mac, leases, now)
        } else if kind == DHCP_REQUEST {
            handle_dhcp_request(config, dhcp, client_mac, leases, now)
        } else if kind == DHCP_DECLINE || kind == DHCP_RELEASE {
            handle_dhcp_release(client_mac, leases)
        } else {
            ServerAction::Nothing
        },
        None => ServerAction::Nothing,
    }
}

/// What the parent is told about the hostnames that an action takes away and
/// gives.
pub open spec fn host_reports(action: ServerAction) -> Seq<DhcpServerWorkerToParentMsg> {
    let taken = |name: Option<String>|
        match name {
            Some(name) => seq![DhcpServerWorkerToParentMsg::DeregisterLocalHost { name }],
            None => Seq::<DhcpServerWorkerToParentMsg>::empty(),
        };
    match action {
        ServerAction::Ack { ip, deregister, register, .. } => taken(deregister) + (
        match register {
            Some(name) => seq![DhcpServerWorkerToParentMsg::RegisterLocalHost { name, ip }],
            None => Seq::<DhcpServerWorkerToParentMsg>::empty(),
        }),
        ServerAction::Released { deregister, .. } => taken(deregister),
        _ => Seq::empty(),
    }
}

/// Says what the parent is told about the hostnames that an action takes away
/// and gives.
pub fn host_messages(action: &ServerAction) -> (r: Vec<DhcpServerWorkerToParentMsg>)
    ensures
        r@ == host_reports(*action),
{
    let mut messages: Vec<DhcpServerWorkerToParentMsg> = Vec::new();
    match action {
        ServerAction::Ack { ip, deregister, register, .. } => {
            if let Some(name) = deregister {
                messages.push(
                    DhcpServerWorkerToParentMsg::DeregisterLocalHost { name: name.clone() },
                );
            }
            if let Some(name) = register {
                messages.push(
                    DhcpServerWorkerToParentMsg::RegisterLocalHost { name: name.clone(), ip: *ip },
                );
            }
        },
        ServerAction::Released { deregister, .. } => {
            if let Some(name) = deregister {
                messages.push(
                    DhcpServerWorkerToParentMsg::DeregisterLocalHost { name: name.clone() },
                );
            }
        },
        _ => {},
    }
    assert(messages@ =~= host_reports(*action));
    messages
}

/// What comes to the server, apart from frames.
pub enum ServerEvent {
    /// Some time has passed.
    Tick,
    /// The parent has something to say.
    Parent(DhcpServerParentToWorkerMsg),
    /// The parent closed the connection, or the connection failed.
    ParentGone,
}

/// What the server is to do.
pub struct ServerStep {
    /// What to tell the parent.
    pub messages: Vec<DhcpServerWorkerToParentMsg>,
    /// End.
    pub stop: bool,
}

/// The messages by which the parent is told that these hostnames are given up.
pub open spec fn deregistrations(names: Seq<String>) -> Seq<DhcpServerWorkerToParentMsg> {
    names.map_values(|name: String| DhcpServerWorkerToParentMsg::DeregisterLocalHost { name })
}

/// Whether the parent is told that the server is alive, and then of the hostname
/// of each lease that has run out.
pub open spec fn reports_expiry(
    messages: Seq<DhcpServerWorkerToParentMsg>,
    before: LeaseTableState,
    now: u64,
) -> bool {
    exists|names: Seq<String>|
        {
            &&& messages == seq![DhcpServerWorkerToParentMsg::Heartbeat]
                + #[trigger] deregistrations(names)
            &&& lists_expired_hostnames(names, before.leases, now)
        }
}

/// Whether `step` is what the server does on `event`, where `after` takes the
/// place of the table `before`.
pub open spec fn loop_event_handled(
    event: ServerEvent,
    before: LeaseTableState,
    now: u64,
    step: ServerStep,
    after: LeaseTableState,
) -> bool {
    match event {
        ServerEvent::Tick => {
            &&& after == before.evicted(now)
            &&& reports_expiry(step.messages@, before, now)
            &&& !step.stop
        },
        ServerEvent::Parent(
            DhcpServerParentToWorkerMsg::AddNeighbor { ip_address, mac_address },
        ) => {
            &&& after == if before.neighbor_is_news(mac_address, ip_address, now) {
                before.with_lease(mac_address, ip_address, now + NEIGHBOR_HOLD_DURATION, None)
            } else {
                before
            }
            &&& step.messages@.len() == 0
            &&& !step.stop
        },
        ServerEvent::ParentGone => {
            &&& after == before
            &&& step.messages@.len() == 0
            &&& step.stop
        },
    }
}

/// Acts on what comes to the server, apart from frames.
pub fn run_server_loop(event: ServerEvent, leases: &mut LeaseTable, now: u64) -> (r: ServerStep)
    requires
        old(leases).wf(),
        clock_fits(now),
    ensures
        final(leases).wf(),
        loop_event_handled(event, old(leases)@, now, r, final(leases)@),
{
    let mut messages: Vec<DhcpServerWorkerToParentMsg> = Vec::new();
    match event {
        ServerEvent::Tick => {
            messages.push(DhcpServerWorkerToParentMsg::Heartbeat);
            let names = leases.evict_expired(now);
            let ghost all = names@;
            let n: usize = names.len();
            let mut i: usize = 0;
            assert(messages@ =~= seq![DhcpServerWorkerToParentMsg::Heartbeat] + deregistrations(
                all.take(0),
            ));
            while i < n
                invariant
                    i <= n,
                    n == names@.len(),
                    names@ == all,
                    messages@ == seq![DhcpServerWorkerToParentMsg::Heartbeat] + deregistrations(
                        all.take(i as int),
                    ),
                decreases n - i,
            {
                let name = names[i].clone();
                messages.push(DhcpServerWorkerToParentMsg::DeregisterLocalHost { name });
                assert(deregistrations(all.take(i + 1)) =~= deregistrations(
                    all.take(i as int),
                ).push(DhcpServerWorkerToParentMsg::DeregisterLocalHost { name: all[i as int] }));
                assert(messages@ =~= seq![DhcpServerWorkerToParentMsg::Heartbeat]
                    + deregistrations(all.take(i + 1)));
                i += 1;
            }
            assert(all.take(n as int) =~= all);
            assert(reports_expiry(messages@, old(leases)@, now));
            ServerStep { messages, stop: false }
        },
        ServerEvent::Parent(
            DhcpServerParentToWorkerMsg::AddNeighbor { ip_address, mac_address },
        ) => {
            leases.update_from_neighbor(mac_address, ip_address, now);
            ServerStep { messages, stop: false }
        },
        ServerEvent::ParentGone => ServerStep { messages, stop: true },
    }
}

/// A client that discovers again is offered the address that it was offered
/// before, as long as the lease that came with the offer runs.
pub proof fn law_rediscovery_offers_same_address(
    config: ServerConfig,
    m: MessageView,
    mac: MacAddr,
    ip: Ipv4Addr,
    s0: LeaseTableState,
    now: u64,
    r: ServerAction,
    s1: LeaseTableState,
    again: MessageView,
    later: u64,
    r2: ServerAction,
    s2: LeaseTableState,
)
    requires
        offers(config, m, mac, ip, s0, now, r, s1),
        begins_discover(config, again, mac, s1, later, r2, s2),
        later < now + LAN_LEASE_DURATION <= u64::MAX,
    ensures
        offers(config, again, mac, ip, s1, later, r2, s2),
{
}

/// A client that asks this server for the address it was offered is given it,
/// where nobody else has taken it meanwhile: the request is confirmed, not
/// refused.
pub proof fn law_offered_address_is_confirmed(
    config: ServerConfig,
    m: MessageView,
    mac: MacAddr,
    ip: Ipv4Addr,
    s0: LeaseTableState,
    now: u64,
    r: ServerAction,
    s1: LeaseTableState,
    request: MessageView,
    later: u64,
    r2: ServerAction,
    s2: LeaseTableState,
)
    requires
        continues_discover(config, m, mac, ip, s0, now, r, s1),
        !s0.ip_taken_by_other(ip, mac, now),
        config.net.prefix_len < 31,
        config.net.has_host(ip),
        ip != config.server_ip,
        request.requested_ip() == Some(ip),
        request.server_identifier() == Some(config.server_ip),
        now <= later,
        begins_request(config, request, mac, s1, later, r2, s2),
    ensures
        r2 matches ServerAction::ProbeAck { confirmation, .. } && confirmation.ip == ip,
{
    assert forall|other: MacAddr| other != mac implies !#[trigger] s1.leases_to(
        other,
        ip,
        later,
    ) by {
        if s1.leases_to(other, ip, later) {
            assert(s0.leases_to(other, ip, now));
        }
    }
    assert(s1.may_have(mac, ip, config.server_ip, config.net, later));
}

/// An address that somebody else was found to use while it was probed is held
/// back for a while, and the next address that is probed is another one.
pub proof fn law_conflicting_address_is_not_offered(
    config: ServerConfig,
    m: MessageView,
    mac: MacAddr,
    ip: Ipv4Addr,
    s0: LeaseTableState,
    now: u64,
    r: ServerAction,
    s1: LeaseTableState,
)
    requires
        continues_discover(config, m, mac, ip, s0, now, r, s1),
        s0.ip_taken_by_other(ip, mac, now),
        clock_fits(now),
    ensures
        r matches ServerAction::ProbeOffer { ip: next, .. } ==> next != ip,
        forall|later: u64|
            later < now + CONFLICT_HOLD_DURATION ==> #[trigger] s1.in_conflict(ip, later),
{
    let held = s0.with_conflict(ip, now + CONFLICT_HOLD_DURATION);
    assert(held.evicted(now).in_conflict(ip, now));
}

/// Time alone leaves the addresses exclusive.
proof fn lemma_exclusive_later(state: LeaseTableState, now: u64, later: u64)
    requires
        exclusive(state, now),
        now <= later,
    ensures
        exclusive(state, later),
{
    assert forall|a: MacAddr, b: MacAddr, ip: Ipv4Addr|
        #[trigger] state.leases_to(a, ip, later) && #[trigger] state.leases_to(
            b,
            ip,
            later,
        ) implies a == b by {
        assert(state.leases_to(a, ip, now));
        assert(state.leases_to(b, ip, now));
    }
}

/// Conflict holds have no part in whether the addresses are exclusive.
proof fn lemma_same_leases_stay_exclusive(
    before: LeaseTableState,
    after: LeaseTableState,
    now: u64,
)
    requires
        exclusive(before, now),
        after.leases == before.leases,
    ensures
        exclusive(after, now),
{
    assert forall|a: MacAddr, ip: Ipv4Addr| #[trigger] after.leases_to(a, ip, now) implies before.leases_to(
        a,
        ip,
        now,
    ) by {}
}

/// An address that is given to a client while nobody else has it leaves the
/// addresses exclusive.
proof fn lemma_free_address_keeps_exclusive(
    before: LeaseTableState,
    mac: MacAddr,
    ip: Ipv4Addr,
    expiry: int,
    name: Option<Seq<char>>,
    now: u64,
    later: u64,
)
    requires
        exclusive(before, now),
        !before.ip_taken_by_other(ip, mac, now),
        now <= later,
    ensures
        exclusive(before.with_lease(mac, ip, expiry, name), later),
{
    let after = before.with_lease(mac, ip, expiry, name);
    assert forall|a: MacAddr, b: MacAddr, held: Ipv4Addr|
        #[trigger] after.leases_to(a, held, later) && #[trigger] after.leases_to(
            b,
            held,
            later,
        ) implies a == b by {
        if a != mac {
            assert(before.leases_to(a, held, now));
        }
        if b != mac {
            assert(before.leases_to(b, held, now));
        }
    }
}

/// The next candidate leaves the addresses exclusive.
proof fn lemma_candidate_keeps_exclusive(
    config: ServerConfig,
    m: MessageView,
    mac: MacAddr,
    before: LeaseTableState,
    now: u64,
    r: ServerAction,
    after: LeaseTableState,
    later: u64,
)
    requires
        exclusive(before, now),
        now <= later,
        clock_fits(now),
        probes_candidate(config, m, mac, before, now, r, after),
    ensures
        exclusive(after, later),
{
    let kept = before.evicted(now);
    assert forall|a: MacAddr, b: MacAddr, ip: Ipv4Addr|
        #[trigger] after.leases_to(a, ip, later) && #[trigger] after.leases_to(
            b,
            ip,
            later,
        ) implies a == b by {
        if before.leases.contains_key(a) && after.leases[a] == before.leases[a] {
            assert(before.leases_to(a, ip, now));
            assert(kept.holds(a, ip));
        }
        if before.leases.contains_key(b) && after.leases[b] == before.leases[b] {
            assert(before.leases_to(b, ip, now));
            assert(kept.holds(b, ip));
        }
    }
}

/// Where no two clients have a live lease on the same address, no frame changes
/// that, whoever sent it and whatever it asks for.
pub proof fn law_frames_keep_addresses_exclusive(
    config: ServerConfig,
    frame: Seq<u8>,
    before: LeaseTableState,
    now: u64,
    r: ServerAction,
    after: LeaseTableState,
    later: u64,
)
    requires
        exclusive(before, now),
        now <= later,
        clock_fits(now),
        handles_packet(config, frame, before, now, r, after),
    ensures
        exclusive(after, later),
{
    lemma_exclusive_later(before, now, later);
    if let Some((m, mac)) = accepted(frame) {
        if let Some(kind) = m.message_type() {
            if kind == DHCP_DISCOVER {
                match before.target(mac, None, now) {
                    Some(ip) => {
                        assert(before.leases_to(mac, ip, now));
                        lemma_free_address_keeps_exclusive(
                            before,
                            mac,
                            ip,
                            now + LAN_LEASE_DURATION,
                            hostname_of(m),
                            now,
                            later,
                        );
                    },
                    None => {
                        lemma_candidate_keeps_exclusive(
                            config,
                            m,
                            mac,
                            before,
                            now,
                            r,
                            after,
                            later,
                        );
                    },
                }
            } else if kind == DHCP_REQUEST {
                if let ServerAction::ProbeAck { confirmation, .. } = r {
                    lemma_free_address_keeps_exclusive(
                        before,
                        mac,
                        confirmation.ip,
                        now + LAN_LEASE_DURATION,
                        before.granted_name(mac, hostname_of(m), now),
                        now,
                        later,
                    );
                }
            } else if kind == DHCP_DECLINE || kind == DHCP_RELEASE {
                assert forall|a: MacAddr, ip: Ipv4Addr| #[trigger]
                    after.leases_to(a, ip, later) implies before.leases_to(a, ip, later) by {}
            }
        }
    }
}

/// Where no two clients have a live lease under the same hostname, no request
/// for an address changes that.
pub proof fn law_requests_keep_hostnames_exclusive(
    config: ServerConfig,
    m: MessageView,
    mac: MacAddr,
    before: LeaseTableState,
    now: u64,
    r: ServerAction,
    after: LeaseTableState,
    later: u64,
)
    requires
        names_exclusive(before, now),
        now <= later,
        begins_request(config, m, mac, before, now, r, after),
    ensures
        names_exclusive(after, later),
{
    if m.server_identifier() is Some && m.server_identifier() != Some(config.server_ip) {
        assert forall|a: MacAddr, name: Seq<char>| #[trigger]
            named(before, a, name, later) implies named(before, a, name, now) by {}
    } else {
        let confirmation = match r {
            ServerAction::ProbeAck { confirmation, .. } => Some(confirmation),
            _ => None,
        };
        law_hostnames_stay_exclusive(
            before,
            after,
            mac,
            m.requested_ip(),
            config.server_ip,
            config.net,
            LAN_LEASE_DURATION,
            hostname_of(m),
            now,
            confirmation,
            later,
        );
    }
}

/// Where no two clients have a live lease on the same address, going on with a
/// discovery or with a request does not change that, whatever the probe found.
pub proof fn law_probes_keep_addresses_exclusive(
    config: ServerConfig,
    m: MessageView,
    mac: MacAddr,
    ip: Ipv4Addr,
    confirmation: LeaseConfirmation,
    before: LeaseTableState,
    now: u64,
    r: ServerAction,
    after: LeaseTableState,
    later: u64,
)
    requires
        exclusive(before, now),
        now <= later,
        clock_fits(now),
        continues_discover(config, m, mac, ip, before, now, r, after) || continues_request(
            config,
            m,
            mac,
            confirmation,
            before,
            now,
            r,
            after,
        ),
    ensures
        exclusive(after, later),
{
    lemma_exclusive_later(before, now, later);
    if continues_request(config, m, mac, confirmation, before, now, r, after) {
        lemma_same_leases_stay_exclusive(before, after, later);
    } else if before.ip_taken_by_other(ip, mac, now) {
        let held = before.with_conflict(ip, now + CONFLICT_HOLD_DURATION);
        lemma_exclusive_later(before, now, now);
        lemma_same_leases_stay_exclusive(before, held, now);
        lemma_candidate_keeps_exclusive(config, m, mac, held, now, r, after, later);
    } else {
        lemma_free_address_keeps_exclusive(
            before,
            mac,
            ip,
            now + LAN_LEASE_DURATION,
            hostname_of(m),
            now,
            later,
        );
    }
}

/// Where no two clients have a live lease on the same address, nothing else that
/// comes to the server changes that, unless a neighbor is reported at an address
/// that another client has.
pub proof fn law_events_keep_addresses_exclusive(
    event: ServerEvent,
    before: LeaseTableState,
    now: u64,
    step: ServerStep,
    after: LeaseTableState,
    later: u64,
)
    requires
        exclusive(before, now),
        now <= later,
        loop_event_handled(event, before, now, step, after),
        event matches ServerEvent::Parent(
            DhcpServerParentToWorkerMsg::AddNeighbor { ip_address, mac_address },
        ) ==> !before.ip_taken_by_other(ip_address, mac_address, now),
    ensures
        exclusive(after, later),
{
    lemma_exclusive_later(before, now, later);
    match event {
        ServerEvent::Tick => {
            assert forall|a: MacAddr, ip: Ipv4Addr| #[trigger]
                after.leases_to(a, ip, later) implies before.leases_to(a, ip, later) by {}
        },
        ServerEvent::Parent(
            DhcpServerParentToWorkerMsg::AddNeighbor { ip_address, mac_address },
        ) => {
            lemma_free_address_keeps_exclusive(
                before,
                mac_address,
                ip_address,
                now + NEIGHBOR_HOLD_DURATION,
                None,
                now,
                later,
            );
        },
        ServerEvent::ParentGone => {},
    }
}

/// Frames that name no client, or that somebody else sent in the name of a
/// client without a relay, change nothing and are not answered.
pub proof fn law_spoofed_frames_are_dropped(
    config: ServerConfig,
    frame: Seq<u8>,
    before: LeaseTableState,
    now: u64,
    r: ServerAction,
    after: LeaseTableState,
)
    requires
        handles_packet(config, frame, before, now, r, after),
        framed_message(frame, SERVER_PORT) matches Some(m) ==> {
            ||| client_mac_of(m) is None
            ||| m.giaddr.bits == 0 && client_mac_of(m) != Some(
                MacAddr(frame[6], frame[7], frame[8], frame[9], frame[10], frame[11]),
            )
        },
    ensures
        r is Nothing,
        after == before,
{
}

} // verus!
