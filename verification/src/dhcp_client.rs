//! How the WAN address is obtained, kept and given up.

use crate::addr::{mask_to_prefix_len, netmask, Ipv4Addr, MacAddr, NANOS_PER_SEC};
use crate::dhcp::{
    option_of, DhcpMessage, MessageView, OptionValue, OptionView, BOOT_REQUEST, CLIENT_PORT,
    DHCP_ACK, DHCP_DISCOVER, DHCP_NAK, DHCP_OFFER, DHCP_REQUEST, FLAG_BROADCAST,
    OPT_DOMAIN_NAME_SERVER, OPT_LEASE_TIME, OPT_MESSAGE_TYPE, OPT_PARAMETER_REQUEST_LIST,
    OPT_REQUESTED_IP, OPT_ROUTER, OPT_SERVER_IDENTIFIER, OPT_SUBNET_MASK, SERVER_PORT,
};
use crate::ipc::DhcpClientToParentMsg;
use crate::packet::{build_raw_packet, raw_frame, UdpRoute, MAX_UDP_PAYLOAD};
use vstd::prelude::*;

verus! {

/// How long a lease lasts whose server does not say, in seconds.
pub const DEFAULT_LEASE_SECS: u32 = 3600;

/// The longest base delay before a message is sent again, in seconds.
pub const MAX_RETRY_DELAY_SECS: u32 = 64;

/// The first base delay before a message is sent again, in seconds.
pub const INITIAL_RETRY_DELAY_SECS: u32 = 4;

/// How long to wait after a failure before starting over, in seconds.
pub const SOCKET_RESTART_DELAY_SECS: u64 = 5;

/// How often a client with a lease says that it is alive, in seconds.
pub const BOUND_HEARTBEAT_INTERVAL_SECS: u64 = 3;

/// The prefix length that stands in for a mask that is not contiguous.
pub const FALLBACK_PREFIX_LEN: u8 = 24;

/// The netmask `255.255.255.0`, for a lease whose server does not give one.
pub open spec fn default_mask() -> Ipv4Addr {
    crate::addr::spec_ipv4(255, 255, 255, 0)
}

/// An address offered by a server.
#[derive(Clone, Copy, Debug, PartialEq, Eq, Structural)]
pub struct DhcpOffer {
    pub offered_ip: Ipv4Addr,
    pub server_ip: Option<Ipv4Addr>,
}

/// An address granted by a server, and how the network around it is set up.
#[derive(Clone, Debug, PartialEq, Eq)]
pub struct DhcpAck {
    pub ip: Ipv4Addr,
    pub mask: Ipv4Addr,
    pub gateway: Option<Ipv4Addr>,
    pub server_ip: Option<Ipv4Addr>,
    pub lease_secs: u32,
    pub dns_servers: Vec<Ipv4Addr>,
}

/// How the network around a granted address is set up.
#[derive(Clone, Debug, PartialEq, Eq)]
pub struct LeaseOptions {
    pub mask: Ipv4Addr,
    pub gateway: Option<Ipv4Addr>,
    pub dns_servers: Vec<Ipv4Addr>,
    pub lease_secs: u32,
}

/// What a message says to a client that waits for a decision.
#[derive(Clone, Debug, PartialEq, Eq)]
pub enum ParseAckResult {
    Ack(DhcpAck),
    Nak,
    Unrelated,
}

/// Why the client has no lease, or why a lease could not be put to use.
#[derive(Clone, Debug, PartialEq, Eq)]
pub enum DhcpError {
    Io(String),
    Protocol(String),
    Nak,
    InterfaceNotFound(String),
    RtNetlink(String),
}

impl DhcpError {
    /// How the error is put in words.
    pub open spec fn worded(self) -> Seq<char> {
        match self {
            DhcpError::Io(cause) => "IO error: "@ + cause@,
            DhcpError::Protocol(cause) => "DHCP protocol error: "@ + cause@,
            DhcpError::Nak => "DHCPNAK received"@,
            DhcpError::InterfaceNotFound(name) => "Interface not found: "@ + name@,
            DhcpError::RtNetlink(cause) => "Netlink error: "@ + cause@,
        }
    }

    /// The error in words.
    pub fn message(&self) -> (r: String)
        ensures
            r@ == self.worded(),
    {
        match self {
            DhcpError::Io(cause) => "IO error: ".to_owned().concat(cause.as_str()),
            DhcpError::Protocol(cause) => "DHCP protocol error: ".to_owned().concat(cause.as_str()),
            DhcpError::Nak => "DHCPNAK received".to_owned(),
            DhcpError::InterfaceNotFound(name) => "Interface not found: ".to_owned().concat(
                name.as_str(),
            ),
            DhcpError::RtNetlink(cause) => "Netlink error: ".to_owned().concat(cause.as_str()),
        }
    }
}

/// The offer that a message makes in the exchange `xid`.
pub open spec fn offer_in(m: MessageView, xid: u32) -> Option<DhcpOffer> {
    if m.xid == xid && m.message_type() == Some(DHCP_OFFER) {
        Some(DhcpOffer { offered_ip: m.yiaddr, server_ip: m.server_identifier() })
    } else {
        None
    }
}

pub fn parse_offer(dhcp: &DhcpMessage, xid: u32) -> (r: Option<DhcpOffer>)
    ensures
        r == offer_in(dhcp@, xid),
{
    if dhcp.xid != xid {
        return None;
    }
    match dhcp.message_type() {
        Some(kind) => if kind == DHCP_OFFER {
            Some(DhcpOffer { offered_ip: dhcp.yiaddr, server_ip: dhcp.server_identifier() })
        } else {
            None
        },
        None => None,
    }
}

/// The netmask that a message gives.
pub open spec fn mask_in(m: MessageView) -> Ipv4Addr {
    match option_of(m.options, OPT_SUBNET_MASK) {
        Some(OptionView::Address(mask)) => mask,
        _ => default_mask(),
    }
}

/// The first router that a message names.
pub open spec fn gateway_in(m: MessageView) -> Option<Ipv4Addr> {
    match option_of(m.options, OPT_ROUTER) {
        Some(OptionView::Addresses(routers)) => if routers.len() > 0 {
            Some(routers[0])
        } else {
            None
        },
        _ => None,
    }
}

/// The name servers that a message names.
pub open spec fn dns_in(m: MessageView) -> Seq<Ipv4Addr> {
    match option_of(m.options, OPT_DOMAIN_NAME_SERVER) {
        Some(OptionView::Addresses(servers)) => servers,
        _ => Seq::empty(),
    }
}

/// How long the lease that a message grants lasts, in seconds.
pub open spec fn lease_secs_in(m: MessageView) -> u32 {
    match option_of(m.options, OPT_LEASE_TIME) {
        Some(OptionView::Seconds(secs)) => secs,
        _ => DEFAULT_LEASE_SECS,
    }
}

pub fn parse_lease_options(dhcp: &DhcpMessage) -> (r: LeaseOptions)
    ensures
        r.mask == mask_in(dhcp@),
        r.gateway == gateway_in(dhcp@),
        r.dns_servers@ == dns_in(dhcp@),
        r.lease_secs == lease_secs_in(dhcp@),
{
    let mask: Ipv4Addr = match dhcp.option(OPT_SUBNET_MASK) {
        Some(OptionValue::Address(mask)) => *mask,
        _ => Ipv4Addr::new(255, 255, 255, 0),
    };
    let gateway: Option<Ipv4Addr> = match dhcp.option(OPT_ROUTER) {
        Some(OptionValue::Addresses(routers)) => if routers.len() > 0 {
            Some(routers[0])
        } else {
            None
        },
        _ => None,
    };
    let dns_servers: Vec<Ipv4Addr> = match dhcp.option(OPT_DOMAIN_NAME_SERVER) {
        Some(OptionValue::Addresses(servers)) => copy_addresses(servers),
        _ => Vec::new(),
    };
    let lease_secs: u32 = match dhcp.option(OPT_LEASE_TIME) {
        Some(OptionValue::Seconds(secs)) => *secs,
        _ => DEFAULT_LEASE_SECS,
    };
    LeaseOptions { mask, gateway, dns_servers, lease_secs }
}

/// A copy of a list of addresses.
pub fn copy_addresses(addresses: &Vec<Ipv4Addr>) -> (r: Vec<Ipv4Addr>)
    ensures
        r@ == addresses@,
{
    let mut r: Vec<Ipv4Addr> = Vec::new();
    let mut i: usize = 0;
    while i < addresses.len()
        invariant
            i <= addresses.len(),
            r@ == addresses@.take(i as int),
        decreases addresses.len() - i,
    {
        r.push(addresses[i]);
        assert(addresses@.take(i + 1) =~= addresses@.take(i as int).push(addresses@[i as int]));
        i += 1;
    }
    assert(addresses@.take(i as int) =~= addresses@);
    r
}

/// Whether `ack` is what the acknowledgement `m` grants.
pub open spec fn grants(m: MessageView, ack: DhcpAck) -> bool {
    &&& ack.ip == m.yiaddr
    &&& ack.mask == mask_in(m)
    &&& ack.gateway == gateway_in(m)
    &&& ack.server_ip == m.server_identifier()
    &&& ack.lease_secs == lease_secs_in(m)
    &&& ack.dns_servers@ == dns_in(m)
}

/// Whether `r` is what a message says in the exchange `xid`.
pub open spec fn decision_in(m: MessageView, xid: u32, r: ParseAckResult) -> bool {
    if m.xid == xid && m.message_type() == Some(DHCP_ACK) {
        r matches ParseAckResult::Ack(ack) && grants(m, ack)
    } else if m.xid == xid && m.message_type() == Some(DHCP_NAK) {
        r is Nak
    } else {
        r is Unrelated
    }
}

pub fn parse_ack_nak(dhcp: &DhcpMessage, xid: u32) -> (r: ParseAckResult)
    ensures
        decision_in(dhcp@, xid, r),
{
    if dhcp.xid != xid {
        return ParseAckResult::Unrelated;
    }
    match dhcp.message_type() {
        Some(kind) => if kind == DHCP_ACK {
            let opts = parse_lease_options(dhcp);
            ParseAckResult::Ack(
                DhcpAck {
                    ip: dhcp.yiaddr,
                    mask: opts.mask,
                    gateway: opts.gateway,
                    server_ip: dhcp.server_identifier(),
                    lease_secs: opts.lease_secs,
                    dns_servers: opts.dns_servers,
                },
            )
        } else if kind == DHCP_NAK {
            ParseAckResult::Nak
        } else {
            ParseAckResult::Unrelated
        },
        None => ParseAckResult::Unrelated,
    }
}

/// The outcome that a decision brings, where there is one.
pub fn handle_ack_result(ack_res: ParseAckResult) -> (r: Option<Result<DhcpAck, DhcpError>>)
    ensures
        match ack_res {
            ParseAckResult::Ack(ack) => r == Some(Ok::<DhcpAck, DhcpError>(ack)),
            ParseAckResult::Nak => r == Some(Err::<DhcpAck, DhcpError>(DhcpError::Nak)),
            ParseAckResult::Unrelated => r is None,
        },
{
    match ack_res {
        ParseAckResult::Ack(ack) => Some(Ok(ack)),
        ParseAckResult::Nak => Some(Err(DhcpError::Nak)),
        ParseAckResult::Unrelated => None,
    }
}

/// The six bytes of a hardware address.
pub open spec fn mac_bytes(mac: MacAddr) -> Seq<u8> {
    seq![mac.0, mac.1, mac.2, mac.3, mac.4, mac.5]
}

/// The message by which a client looks for servers.
pub open spec fn discover_message(mac: MacAddr, xid: u32) -> MessageView {
    MessageView {
        opcode: BOOT_REQUEST,
        hlen: 6,
        xid,
        flags: FLAG_BROADCAST,
        ciaddr: Ipv4Addr { bits: 0 },
        yiaddr: Ipv4Addr { bits: 0 },
        siaddr: Ipv4Addr { bits: 0 },
        giaddr: Ipv4Addr { bits: 0 },
        chaddr: mac_bytes(mac),
        options: seq![
            (OPT_MESSAGE_TYPE, OptionView::Kind(DHCP_DISCOVER)),
            (
                OPT_PARAMETER_REQUEST_LIST,
                OptionView::Codes(seq![OPT_SUBNET_MASK, OPT_ROUTER, OPT_DOMAIN_NAME_SERVER]),
            ),
        ],
    }
}

pub fn build_discover_message(mac: MacAddr, xid: u32) -> (r: DhcpMessage)
    ensures
        r@ == discover_message(mac, xid),
        r@.encodable(),
{
    let mut discover = DhcpMessage::new();
    discover.xid = xid;
    discover.flags = FLAG_BROADCAST;
    discover.hlen = 6;
    discover.chaddr = vec![mac.0, mac.1, mac.2, mac.3, mac.4, mac.5];
    discover.options.push((OPT_MESSAGE_TYPE, OptionValue::Kind(DHCP_DISCOVER)));
    discover.options.push(
        (
            OPT_PARAMETER_REQUEST_LIST,
            OptionValue::Codes(vec![OPT_SUBNET_MASK, OPT_ROUTER, OPT_DOMAIN_NAME_SERVER]),
        ),
    );
    proof {
        assert(discover@.chaddr =~= mac_bytes(mac));
        assert(discover.options@[1].1@->Codes_0 =~= seq![
            OPT_SUBNET_MASK,
            OPT_ROUTER,
            OPT_DOMAIN_NAME_SERVER,
        ]);
        assert(discover@.options =~= discover_message(mac, xid).options);
    }
    discover
}

/// The options of a request: a client that has no address yet names the one it
/// wants, and the server it wants it from.
pub open spec fn request_options(
    requested_ip: Ipv4Addr,
    server_ip: Option<Ipv4Addr>,
    ciaddr: Ipv4Addr,
) -> Seq<(u8, OptionView)> {
    let kind = seq![(OPT_MESSAGE_TYPE, OptionView::Kind(DHCP_REQUEST))];
    let wanted = seq![(OPT_REQUESTED_IP, OptionView::Address(requested_ip))];
    if ciaddr.bits != 0 {
        kind
    } else {
        match server_ip {
            Some(server) => wanted + seq![(OPT_SERVER_IDENTIFIER, OptionView::Address(server))]
                + kind,
            None => wanted + kind,
        }
    }
}

/// The message by which a client asks for an address, or for more time on the
/// address `ciaddr` that it has.
pub open spec fn request_message(
    mac: MacAddr,
    xid: u32,
    requested_ip: Ipv4Addr,
    server_ip: Option<Ipv4Addr>,
    ciaddr: Ipv4Addr,
) -> MessageView {
    MessageView {
        opcode: BOOT_REQUEST,
        hlen: 6,
        xid,
        flags: if ciaddr.bits == 0 {
            FLAG_BROADCAST
        } else {
            0
        },
        ciaddr,
        yiaddr: Ipv4Addr { bits: 0 },
        siaddr: Ipv4Addr { bits: 0 },
        giaddr: Ipv4Addr { bits: 0 },
        chaddr: mac_bytes(mac),
        options: request_options(requested_ip, server_ip, ciaddr),
    }
}

pub fn build_request_message(
    mac: MacAddr,
    xid: u32,
    requested_ip: Ipv4Addr,
    server_ip: Option<Ipv4Addr>,
    ciaddr: Ipv4Addr,
) -> (r: DhcpMessage)
    ensures
        r@ == request_message(mac, xid, requested_ip, server_ip, ciaddr),
        r@.encodable(),
{
    let mut request = DhcpMessage::new();
    request.xid = xid;
    request.ciaddr = ciaddr;
    request.hlen = 6;
    request.chaddr = vec![mac.0, mac.1, mac.2, mac.3, mac.4, mac.5];
    if ciaddr.bits == 0 {
        request.flags = FLAG_BROADCAST;
        request.options.push((OPT_REQUESTED_IP, OptionValue::Address(requested_ip)));
        if let Some(server) = server_ip {
            request.options.push((OPT_SERVER_IDENTIFIER, OptionValue::Address(server)));
        }
    }
    request.options.push((OPT_MESSAGE_TYPE, OptionValue::Kind(DHCP_REQUEST)));
    proof {
        assert(request@.chaddr =~= mac_bytes(mac));
        assert(request@.options =~= request_options(requested_ip, server_ip, ciaddr));
    }
    request
}

/// The next base delay: twice the last one, up to a limit.
pub fn calculate_next_delay(current_delay: u32) -> (r: u32)
    requires
        current_delay * 2 <= u32::MAX,
    ensures
        r == if current_delay * 2 > MAX_RETRY_DELAY_SECS {
            MAX_RETRY_DELAY_SECS as int
        } else {
            current_delay * 2
        },
{
    let doubled: u32 = current_delay * 2;
    if doubled > MAX_RETRY_DELAY_SECS {
        MAX_RETRY_DELAY_SECS
    } else {
        doubled
    }
}

/// The time to wait between requests when `remaining` seconds are left: half of
/// it, but at least a minute while more than a minute is left, and never less
/// than a second.
pub open spec fn retry_interval(remaining: int) -> int {
    let floor = if remaining > 60 {
        60
    } else {
        1
    };
    if remaining / 2 > floor {
        remaining / 2
    } else {
        floor
    }
}

/// The seconds left at `elapsed` until `deadline`.
pub open spec fn secs_left(deadline: u32, elapsed: u32) -> int {
    if deadline > elapsed {
        deadline - elapsed
    } else {
        0
    }
}

fn half_of_remaining(remaining: u32) -> (r: u32)
    ensures
        r == retry_interval(remaining as int),
{
    let floor: u32 = if remaining > 60 {
        60
    } else {
        1
    };
    let half: u32 = remaining / 2;
    if half > floor {
        half
    } else {
        floor
    }
}

/// How a lease is renewed: how long to wait between requests, whom to ask, and
/// whether any server may answer.
pub fn calculate_renewal_params(
    current_elapsed: u32,
    t2_secs: u32,
    lease_secs: u32,
    server_ip: Option<Ipv4Addr>,
) -> (r: (u32, Ipv4Addr, bool))
    ensures
        r.2 == (current_elapsed >= t2_secs),
        r.0 == retry_interval(
            secs_left(
                if r.2 {
                    lease_secs
                } else {
                    t2_secs
                },
                current_elapsed,
            ),
        ),
        r.1 == match server_ip {
            Some(server) => if r.2 {
                Ipv4Addr { bits: 0xffff_ffff }
            } else {
                server
            },
            None => Ipv4Addr { bits: 0xffff_ffff },
        },
{
    if current_elapsed >= t2_secs {
        let remaining: u32 = lease_secs.saturating_sub(current_elapsed);
        (half_of_remaining(remaining), Ipv4Addr::broadcast(), true)
    } else {
        let remaining: u32 = t2_secs.saturating_sub(current_elapsed);
        let dest_ip: Ipv4Addr = match server_ip {
            Some(server) => server,
            None => Ipv4Addr::broadcast(),
        };
        (half_of_remaining(remaining), dest_ip, false)
    }
}

/// Where the client stands.
pub enum ClientPhase {
    /// Looking for servers.
    Discover { xid: u32, retry_delay_secs: u32 },
    /// Asking for an offered address.
    Request { xid: u32, offer: DhcpOffer, retry_delay_secs: u32 },
    /// Using a granted address.
    Bound { ack: DhcpAck, bound_at: u64 },
    /// Asking for more time on a granted address.
    Renew { ack: DhcpAck, bound_at: u64, xid: u32, sent_at: Option<u64> },
}

impl ClientPhase {
    /// The delays stay within their limit.
    pub open spec fn wf(self) -> bool {
        match self {
            ClientPhase::Discover { retry_delay_secs, .. } => 0 < retry_delay_secs
                <= MAX_RETRY_DELAY_SECS,
            ClientPhase::Request { retry_delay_secs, .. } => 0 < retry_delay_secs
                <= MAX_RETRY_DELAY_SECS,
            _ => true,
        }
    }
}

/// What the client is to do next.
pub enum ClientAction {
    /// Send a message, then listen for about `listen_secs`, give or take a
    /// second.
    SendAndListenAbout { message: DhcpMessage, dest_ip: Ipv4Addr, listen_secs: u32 },
    /// Send a message, then listen for `listen_secs`.
    SendAndListen { message: DhcpMessage, dest_ip: Ipv4Addr, listen_secs: u32 },
    /// Listen for `listen_secs`.
    Listen { listen_secs: u32 },
    /// Do nothing for `secs`.
    Sleep { secs: u64 },
    /// Go on at once.
    Proceed,
    /// Give the address up and start over.
    Fail(DhcpError),
}

/// The whole seconds from `since` to `now`, none where `now` is earlier.
pub open spec fn elapsed_secs(since: u64, now: u64) -> u32 {
    if now < since {
        0
    } else {
        ((now - since) as u64 / NANOS_PER_SEC) as u32
    }
}

fn seconds_since(since: u64, now: u64) -> (r: u32)
    ensures
        r == elapsed_secs(since, now),
{
    if now < since {
        0
    } else {
        ((now - since) / NANOS_PER_SEC) as u32
    }
}

/// When a lease is to be renewed with its server: after half its time.
pub open spec fn renewal_secs(lease_secs: u32) -> u32 {
    lease_secs / 2
}

/// When a lease may be renewed with any server: after seven eighths of its
/// time.
pub open spec fn rebinding_secs(lease_secs: u32) -> int {
    lease_secs * 7 / 8
}

/// `rand::random`: any number.
#[verifier::external_body]
fn random_u32() -> (r: u32)
{
    rand::random::<u32>()
}

/// Starts to look for servers, under a number of the client's own choosing.
pub fn start_discover() -> (r: ClientPhase)
    ensures
        r matches ClientPhase::Discover { retry_delay_secs, .. } && retry_delay_secs
            == INITIAL_RETRY_DELAY_SECS,
        r.wf(),
{
    ClientPhase::Discover { xid: random_u32(), retry_delay_secs: INITIAL_RETRY_DELAY_SECS }
}

/// Whether `r` is what follows in a phase at `now`.
pub open spec fn follows(
    phase: ClientPhase,
    mac: MacAddr,
    now: u64,
    r: (ClientPhase, ClientAction),
) -> bool {
    match phase {
        ClientPhase::Discover { xid, retry_delay_secs } => {
            &&& r.0 == phase
            &&& r.1 matches ClientAction::SendAndListenAbout { message, dest_ip, listen_secs }
            &&& message@ == discover_message(mac, xid)
            &&& dest_ip.bits == 0xffff_ffff
            &&& listen_secs == retry_delay_secs
        },
        ClientPhase::Request { xid, offer, retry_delay_secs } => {
            &&& r.0 == phase
            &&& r.1 matches ClientAction::SendAndListenAbout { message, dest_ip, listen_secs }
            &&& message@ == request_message(
                mac,
                xid,
                offer.offered_ip,
                offer.server_ip,
                Ipv4Addr { bits: 0 },
            )
            &&& dest_ip.bits == 0xffff_ffff
            &&& listen_secs == retry_delay_secs
        },
        ClientPhase::Bound { ack, bound_at } => {
            let elapsed = elapsed_secs(bound_at, now);
            if elapsed >= ack.lease_secs {
                &&& r.0 == phase
                &&& r.1 matches ClientAction::Fail(DhcpError::Protocol(text))
                &&& text@ == "Lease expired"@
            } else if elapsed < renewal_secs(ack.lease_secs) {
                let left = renewal_secs(ack.lease_secs) - elapsed;
                &&& r.0 == phase
                &&& r.1 matches ClientAction::Sleep { secs }
                &&& secs == if left < BOUND_HEARTBEAT_INTERVAL_SECS {
                    left
                } else {
                    BOUND_HEARTBEAT_INTERVAL_SECS as int
                }
            } else {
                &&& r.0 matches ClientPhase::Renew { ack: kept, bound_at: at, sent_at, .. }
                &&& kept == ack
                &&& at == bound_at
                &&& sent_at is None
                &&& r.1 is Proceed
            }
        },
        ClientPhase::Renew { ack, bound_at, xid, sent_at } => {
            let elapsed = elapsed_secs(bound_at, now);
            let rebinding = elapsed >= rebinding_secs(ack.lease_secs);
            let wait = retry_interval(
                secs_left(
                    if rebinding {
                        ack.lease_secs
                    } else {
                        rebinding_secs(ack.lease_secs) as u32
                    },
                    elapsed,
                ),
            );
            if elapsed >= ack.lease_secs {
                &&& r.0 == phase
                &&& r.1 matches ClientAction::Fail(DhcpError::Protocol(text))
                &&& text@ == "Lease expired during renewal"@
            } else if sent_at is None || elapsed_secs(sent_at->0, now) >= wait {
                &&& r.0 == (ClientPhase::Renew { ack, bound_at, xid, sent_at: Some(now) })
                &&& r.1 matches ClientAction::SendAndListen { message, dest_ip, listen_secs }
                &&& message@ == request_message(mac, xid, ack.ip, None, ack.ip)
                &&& dest_ip == if rebinding || ack.server_ip is None {
                    Ipv4Addr { bits: 0xffff_ffff }
                } else {
                    ack.server_ip->0
                }
                &&& listen_secs == wait
            } else {
                &&& r.0 == phase
                &&& r.1 == (ClientAction::Listen { listen_secs: wait as u32 })
            }
        },
    }
}

/// Says what the client is to do next.
pub fn next_action(phase: ClientPhase, mac: MacAddr, now: u64) -> (r: (ClientPhase, ClientAction))
    requires
        phase.wf(),
    ensures
        follows(phase, mac, now, r),
        r.0.wf(),
        r.1 matches ClientAction::SendAndListenAbout { message, .. } ==> message@.encodable(),
        r.1 matches ClientAction::SendAndListen { message, .. } ==> message@.encodable(),
{
    match phase {
        ClientPhase::Discover { xid, retry_delay_secs } => {
            let message = build_discover_message(mac, xid);
            (
                ClientPhase::Discover { xid, retry_delay_secs },
                ClientAction::SendAndListenAbout {
                    message,
                    dest_ip: Ipv4Addr::broadcast(),
                    listen_secs: retry_delay_secs,
                },
            )
        },
        ClientPhase::Request { xid, offer, retry_delay_secs } => {
            let message = build_request_message(
                mac,
                xid,
                offer.offered_ip,
                offer.server_ip,
                Ipv4Addr::unspecified(),
            );
            (
                ClientPhase::Request { xid, offer, retry_delay_secs },
                ClientAction::SendAndListenAbout {
                    message,
                    dest_ip: Ipv4Addr::broadcast(),
                    listen_secs: retry_delay_secs,
                },
            )
        },
        ClientPhase::Bound { ack, bound_at } => {
            let elapsed: u32 = seconds_since(bound_at, now);
            if elapsed >= ack.lease_secs {
                return (
                    ClientPhase::Bound { ack, bound_at },
                    ClientAction::Fail(DhcpError::Protocol("Lease expired".to_owned())),
                );
            }
            let t1_secs: u32 = ack.lease_secs / 2;
            if elapsed < t1_secs {
                let left: u64 = (t1_secs - elapsed) as u64;
                let secs: u64 = if left < BOUND_HEARTBEAT_INTERVAL_SECS {
                    left
                } else {
                    BOUND_HEARTBEAT_INTERVAL_SECS
                };
                return (ClientPhase::Bound { ack, bound_at }, ClientAction::Sleep { secs });
            }
            (
                ClientPhase::Renew { ack, bound_at, xid: random_u32(), sent_at: None },
                ClientAction::Proceed,
            )
        },
        ClientPhase::Renew { ack, bound_at, xid, sent_at } => {
            let elapsed: u32 = seconds_since(bound_at, now);
            if elapsed >= ack.lease_secs {
                return (
                    ClientPhase::Renew { ack, bound_at, xid, sent_at },
                    ClientAction::Fail(
                        DhcpError::Protocol("Lease expired during renewal".to_owned()),
                    ),
                );
            }
            let t2_secs: u32 = (ack.lease_secs as u64 * 7 / 8) as u32;
            let (listen_secs, dest_ip, _in_rebinding) = calculate_renewal_params(
                elapsed,
                t2_secs,
                ack.lease_secs,
                ack.server_ip,
            );
            let should_send: bool = match sent_at {
                Some(at) => seconds_since(at, now) >= listen_secs,
                None => true,
            };
            if should_send {
                let message = build_request_message(mac, xid, ack.ip, None, ack.ip);
                (
                    ClientPhase::Renew { ack, bound_at, xid, sent_at: Some(now) },
                    ClientAction::SendAndListen { message, dest_ip, listen_secs },
                )
            } else {
                (
                    ClientPhase::Renew { ack, bound_at, xid, sent_at },
                    ClientAction::Listen { listen_secs },
                )
            }
        },
    }
}

/// What a message that arrived means to the client.
pub enum MessageOutcome {
    /// Nothing: go on listening.
    Ignored,
    /// The next phase begins.
    Advanced,
    /// An address was granted and is to be put to use.
    Granted,
    /// Give the address up and start over.
    Failed(DhcpError),
}

/// Whether `r` is what a message brings about in a phase at `now`.
pub open spec fn responds(
    phase: ClientPhase,
    m: MessageView,
    now: u64,
    r: (ClientPhase, MessageOutcome),
) -> bool {
    match phase {
        ClientPhase::Discover { xid, .. } => match offer_in(m, xid) {
            Some(offer) => {
                &&& r.0 == (ClientPhase::Request {
                    xid,
                    offer,
                    retry_delay_secs: INITIAL_RETRY_DELAY_SECS,
                })
                &&& r.1 is Advanced
            },
            None => r.0 == phase && r.1 is Ignored,
        },
        ClientPhase::Bound { .. } => r.0 == phase && r.1 is Ignored,
        ClientPhase::Request { xid, .. } => decided(phase, xid, m, now, r),
        ClientPhase::Renew { xid, .. } => decided(phase, xid, m, now, r),
    }
}

/// Whether `r` is what a message brings about while a decision in the exchange
/// `xid` is awaited.
pub open spec fn decided(
    phase: ClientPhase,
    xid: u32,
    m: MessageView,
    now: u64,
    r: (ClientPhase, MessageOutcome),
) -> bool {
    if m.xid == xid && m.message_type() == Some(DHCP_ACK) {
        &&& r.0 matches ClientPhase::Bound { ack, bound_at }
        &&& grants(m, ack)
        &&& bound_at == now
        &&& r.1 is Granted
    } else if m.xid == xid && m.message_type() == Some(DHCP_NAK) {
        r.0 == phase && r.1 == MessageOutcome::Failed(DhcpError::Nak)
    } else {
        r.0 == phase && r.1 is Ignored
    }
}

/// Takes a message into account.
pub fn on_message(phase: ClientPhase, dhcp: &DhcpMessage, now: u64) -> (r: (
    ClientPhase,
    MessageOutcome,
))
    requires
        phase.wf(),
    ensures
        responds(phase, dhcp@, now, r),
        r.0.wf(),
{
    let xid: u32 = match &phase {
        ClientPhase::Discover { xid, .. } => match parse_offer(dhcp, *xid) {
            Some(offer) => {
                return (
                    ClientPhase::Request {
                        xid: *xid,
                        offer,
                        retry_delay_secs: INITIAL_RETRY_DELAY_SECS,
                    },
                    MessageOutcome::Advanced,
                );
            },
            None => {
                return (phase, MessageOutcome::Ignored);
            },
        },
        ClientPhase::Bound { .. } => {
            return (phase, MessageOutcome::Ignored);
        },
        ClientPhase::Request { xid, .. } => *xid,
        ClientPhase::Renew { xid, .. } => *xid,
    };
    match handle_ack_result(parse_ack_nak(dhcp, xid)) {
        Some(Ok(ack)) => (ClientPhase::Bound { ack, bound_at: now }, MessageOutcome::Granted),
        Some(Err(e)) => (phase, MessageOutcome::Failed(e)),
        None => (phase, MessageOutcome::Ignored),
    }
}

/// The phase after nothing was heard in time.
pub open spec fn after_silence(phase: ClientPhase) -> ClientPhase {
    let next = |delay: u32|
        if delay * 2 > MAX_RETRY_DELAY_SECS {
            MAX_RETRY_DELAY_SECS
        } else {
            (delay * 2) as u32
        };
    match phase {
        ClientPhase::Discover { xid, retry_delay_secs } => ClientPhase::Discover {
            xid,
            retry_delay_secs: next(retry_delay_secs),
        },
        ClientPhase::Request { xid, offer, retry_delay_secs } => ClientPhase::Request {
            xid,
            offer,
            retry_delay_secs: next(retry_delay_secs),
        },
        _ => phase,
    }
}

/// Takes into account that nothing was heard in time.
pub fn on_timeout(phase: ClientPhase) -> (r: ClientPhase)
    requires
        phase.wf(),
    ensures
        r == after_silence(phase),
        r.wf(),
{
    match phase {
        ClientPhase::Discover { xid, retry_delay_secs } => ClientPhase::Discover {
            xid,
            retry_delay_secs: calculate_next_delay(retry_delay_secs),
        },
        ClientPhase::Request { xid, offer, retry_delay_secs } => ClientPhase::Request {
            xid,
            offer,
            retry_delay_secs: calculate_next_delay(retry_delay_secs),
        },
        phase => phase,
    }
}

/// The addresses and ports of a message to a server.
pub open spec fn client_route(mac: MacAddr, ciaddr: Ipv4Addr, dest_ip: Ipv4Addr) -> UdpRoute {
    UdpRoute {
        src_mac: mac,
        dst_mac: MacAddr(0xff, 0xff, 0xff, 0xff, 0xff, 0xff),
        src_ip: ciaddr,
        dst_ip: dest_ip,
        src_port: CLIENT_PORT,
        dst_port: SERVER_PORT,
    }
}

/// The frame in which a message is sent, from the address that the client has,
/// if any; an error where the message is too long.
pub fn client_frame(mac: MacAddr, message: &DhcpMessage, dest_ip: Ipv4Addr) -> (r: Result<
    Vec<u8>,
    DhcpError,
>)
    requires
        message@.encodable(),
    ensures
        message@.spelt_by(message@.encoded()),
        match r {
            Ok(frame) => message@.encoded().len() <= MAX_UDP_PAYLOAD && frame@ == raw_frame(
                client_route(mac, message.ciaddr, dest_ip),
                message@.encoded(),
            ),
            Err(e) => message@.encoded().len() > MAX_UDP_PAYLOAD && e.worded()
                == "DHCP protocol error: the message is too long"@,
        },
        message@.options.len() <= 253 ==> r is Ok,
{
    let payload = message.encode();
    let route = UdpRoute {
        src_mac: mac,
        dst_mac: MacAddr::broadcast(),
        src_ip: message.ciaddr,
        dst_ip: dest_ip,
        src_port: CLIENT_PORT,
        dst_port: SERVER_PORT,
    };
    match build_raw_packet(&route, payload.as_slice()) {
        Ok(frame) => Ok(frame),
        Err(_) => {
            proof {
                reveal_strlit("DHCP protocol error: ");
                reveal_strlit("the message is too long");
                reveal_strlit("DHCP protocol error: the message is too long");
                assert("DHCP protocol error: "@ + "the message is too long"@
                    =~= "DHCP protocol error: the message is too long"@);
            }
            Err(DhcpError::Protocol("the message is too long".to_owned()))
        },
    }
}

/// Tells the parent how to put a granted address to use.
pub fn lease_message(ack: &DhcpAck) -> (r: DhcpClientToParentMsg)
    ensures
        r matches DhcpClientToParentMsg::ApplyWanLease {
            ip_address,
            prefix_len,
            gateway,
            dns_servers,
        } && ip_address == ack.ip && gateway == (match ack.gateway {
            Some(router) => router,
            None => Ipv4Addr { bits: 0 },
        }) && dns_servers@ == ack.dns_servers@ && is_prefix_for(ack.mask, prefix_len),
{
    let prefix_len: u8 = match mask_to_prefix_len(ack.mask) {
        Ok(len) => len,
        Err(_) => FALLBACK_PREFIX_LEN,
    };
    let gateway: Ipv4Addr = match ack.gateway {
        Some(router) => router,
        None => Ipv4Addr::unspecified(),
    };
    DhcpClientToParentMsg::ApplyWanLease {
        ip_address: ack.ip,
        prefix_len,
        gateway,
        dns_servers: copy_addresses(&ack.dns_servers),
    }
}

/// Whether `len` is the prefix length of a mask, or stands in for one that is
/// not contiguous.
pub open spec fn is_prefix_for(mask: Ipv4Addr, len: u8) -> bool {
    ||| len <= 32 && netmask(len) == mask.bits
    ||| len == FALLBACK_PREFIX_LEN && forall|n: u8| #[trigger] netmask(n) != mask.bits
}

/// While at least two seconds are left, the next request comes before they are
/// over.
pub proof fn law_retry_before_deadline(remaining: int)
    requires
        remaining >= 2,
    ensures
        0 < retry_interval(remaining) < remaining,
{
}

/// The delays between messages never shrink, and never exceed the limit, as long
/// as they start within it.
pub proof fn law_retry_delays_grow_to_limit(current: u32, next: u32)
    requires
        0 < current <= MAX_RETRY_DELAY_SECS,
        next == if current * 2 > MAX_RETRY_DELAY_SECS {
            MAX_RETRY_DELAY_SECS as int
        } else {
            current * 2
        },
    ensures
        current <= next <= MAX_RETRY_DELAY_SECS,
        next == current ==> current == MAX_RETRY_DELAY_SECS,
{
}

/// A message of an exchange that the client did not start changes nothing.
pub proof fn law_other_exchanges_are_ignored(
    phase: ClientPhase,
    m: MessageView,
    now: u64,
    r: (ClientPhase, MessageOutcome),
)
    requires
        responds(phase, m, now, r),
        phase matches ClientPhase::Discover { xid, .. } ==> m.xid != xid,
        phase matches ClientPhase::Request { xid, .. } ==> m.xid != xid,
        phase matches ClientPhase::Renew { xid, .. } ==> m.xid != xid,
    ensures
        r.0 == phase,
        r.1 is Ignored,
{
}

/// Until seven eighths of a lease have passed, a renewal is asked of the server
/// that granted the lease and of no other; after that, and until the lease has
/// run out, of any server. A renewal names the address only as the one in use.
pub proof fn law_renewal_is_unicast_until_rebinding(
    ack: DhcpAck,
    bound_at: u64,
    xid: u32,
    sent_at: Option<u64>,
    mac: MacAddr,
    now: u64,
    r: (ClientPhase, ClientAction),
)
    requires
        follows(ClientPhase::Renew { ack, bound_at, xid, sent_at }, mac, now, r),
        ack.server_ip is Some,
    ensures
        r.1 matches ClientAction::SendAndListen { message, dest_ip, .. } ==> {
            &&& elapsed_secs(bound_at, now) < rebinding_secs(ack.lease_secs) ==> dest_ip
                == ack.server_ip->0
            &&& elapsed_secs(bound_at, now) >= rebinding_secs(ack.lease_secs) ==> dest_ip.bits
                == 0xffff_ffff
            &&& message@.ciaddr == ack.ip
            &&& ack.ip.bits != 0 ==> message@.requested_ip() is None
                && message@.server_identifier() is None && !message@.broadcast()
        },
{
    reveal_with_fuel(option_of, 2);
}

/// An address is not used past its lease: once the lease has run out, the next
/// thing the client does is to give the address up.
pub proof fn law_expired_lease_is_given_up(
    phase: ClientPhase,
    ack: DhcpAck,
    since: u64,
    mac: MacAddr,
    now: u64,
    r: (ClientPhase, ClientAction),
)
    requires
        follows(phase, mac, now, r),
        phase == (ClientPhase::Bound { ack, bound_at: since }) || (
        phase matches ClientPhase::Renew { ack: kept, bound_at, .. } && kept == ack && bound_at
            == since),
        elapsed_secs(since, now) >= ack.lease_secs,
    ensures
        r.1 is Fail,
{
}

} // verus!
