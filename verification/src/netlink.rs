//! What the kernel reports about links, addresses and neighbours.

use crate::addr::{mac_from_slice, Ipv4Addr, MacAddr};
use crate::ipc::{DhcpServerParentToWorkerMsg, DhcpServerWorkerToParentMsg, LocalHostEvent};
use vstd::prelude::*;

verus! {

/// One thing that the kernel reports about a neighbour.
#[derive(Clone, Debug, PartialEq, Eq)]
pub enum NeighbourAttribute {
    /// Its IPv4 address.
    Destination(Ipv4Addr),
    /// Its link-layer address.
    LinkLayerAddress(Vec<u8>),
    Other,
}

/// One thing that the kernel reports about a link.
#[derive(Clone, Debug, PartialEq, Eq)]
pub enum LinkAttribute {
    /// Its link-layer address.
    Address(Vec<u8>),
    Other,
}

/// What the kernel reports.
#[derive(Clone, Debug, PartialEq, Eq)]
pub enum NetlinkEvent {
    NewLink,
    NewAddress,
    DelAddress,
    NewRoute,
    NewNeighbour { attributes: Vec<NeighbourAttribute> },
    Other,
}

/// Whether a report is about a link that came up or changed, or about an
/// address that came or went.
pub fn is_address_or_link_event(event: &NetlinkEvent) -> (r: bool)
    ensures
        r == (event is NewLink || event is NewAddress || event is DelAddress),
{
    match event {
        NetlinkEvent::NewLink => true,
        NetlinkEvent::NewAddress => true,
        NetlinkEvent::DelAddress => true,
        _ => false,
    }
}

/// The link-layer address that six octets spell.
pub open spec fn mac_of(octets: Seq<u8>) -> Option<MacAddr> {
    if octets.len() == 6 {
        Some(MacAddr(octets[0], octets[1], octets[2], octets[3], octets[4], octets[5]))
    } else {
        None
    }
}

fn mac_in(octets: &Vec<u8>) -> (r: Option<MacAddr>)
    ensures
        r == mac_of(octets@),
{
    match mac_from_slice(octets.as_slice()) {
        Ok(mac) => {
            assert(octets@[0] == mac.0 && octets@[1] == mac.1 && octets@[2] == mac.2 && octets@[3]
                == mac.3 && octets@[4] == mac.4 && octets@[5] == mac.5);
            Some(mac)
        },
        Err(_) => None,
    }
}

/// The last IPv4 address among the attributes.
pub open spec fn last_destination(attributes: Seq<NeighbourAttribute>) -> Option<Ipv4Addr>
    decreases attributes.len(),
{
    if attributes.len() == 0 {
        None
    } else {
        match attributes.last() {
            NeighbourAttribute::Destination(ip) => Some(ip),
            _ => last_destination(attributes.drop_last()),
        }
    }
}

/// The last link-layer address of six octets among the attributes.
pub open spec fn last_mac(attributes: Seq<NeighbourAttribute>) -> Option<MacAddr>
    decreases attributes.len(),
{
    if attributes.len() == 0 {
        None
    } else {
        match attributes.last() {
            NeighbourAttribute::LinkLayerAddress(octets) if octets@.len() == 6 => mac_of(octets@),
            _ => last_mac(attributes.drop_last()),
        }
    }
}

/// The neighbour that a report is about: its IPv4 and its link-layer address,
/// where the report has both.
pub open spec fn neighbor_in(event: NetlinkEvent) -> Option<(Ipv4Addr, MacAddr)> {
    match event {
        NetlinkEvent::NewNeighbour { attributes } => {
            let ip = last_destination(attributes@);
            let mac = last_mac(attributes@);
            if ip is Some && mac is Some {
                Some((ip->0, mac->0))
            } else {
                None
            }
        },
        _ => None,
    }
}

/// Reads which neighbour a report is about.
pub fn parse_neighbor_update(event: &NetlinkEvent) -> (r: Option<(Ipv4Addr, MacAddr)>)
    ensures
        r == neighbor_in(*event),
{
    let attributes = match event {
        NetlinkEvent::NewNeighbour { attributes } => attributes,
        _ => return None,
    };
    let mut ip_opt: Option<Ipv4Addr> = None;
    let mut mac_opt: Option<MacAddr> = None;
    let n: usize = attributes.len();
    let mut i: usize = 0;
    while i < n
        invariant
            i <= n,
            n == attributes@.len(),
            ip_opt == last_destination(attributes@.take(i as int)),
            mac_opt == last_mac(attributes@.take(i as int)),
        decreases n - i,
    {
        let ghost upto = attributes@.take(i + 1);
        assert(upto.drop_last() =~= attributes@.take(i as int));
        assert(upto.last() == attributes@[i as int]);
        match &attributes[i] {
            NeighbourAttribute::Destination(ip) => {
                ip_opt = Some(*ip);
            },
            NeighbourAttribute::LinkLayerAddress(octets) => {
                if let Some(mac) = mac_in(octets) {
                    mac_opt = Some(mac);
                }
            },
            NeighbourAttribute::Other => {},
        }
        i += 1;
    }
    assert(attributes@.take(n as int) =~= attributes@);
    match (ip_opt, mac_opt) {
        (Some(ip), Some(mac)) => Some((ip, mac)),
        _ => None,
    }
}

/// The first link-layer address of six octets among the attributes.
pub open spec fn first_mac(attributes: Seq<LinkAttribute>) -> Option<MacAddr>
    decreases attributes.len(),
{
    if attributes.len() == 0 {
        None
    } else {
        match attributes.first() {
            LinkAttribute::Address(octets) if octets@.len() == 6 => mac_of(octets@),
            _ => first_mac(attributes.drop_first()),
        }
    }
}

/// Finds the link-layer address of a link.
pub fn find_mac_address_attribute(attributes: &Vec<LinkAttribute>) -> (r: Option<MacAddr>)
    ensures
        r == first_mac(attributes@),
{
    let mut i: usize = 0;
    assert(attributes@.skip(0) =~= attributes@);
    while i < attributes.len()
        invariant
            i <= attributes.len(),
            first_mac(attributes@) == first_mac(attributes@.skip(i as int)),
        decreases attributes.len() - i,
    {
        assert(attributes@.skip(i as int).drop_first() =~= attributes@.skip(i + 1));
        if let LinkAttribute::Address(octets) = &attributes[i] {
            if let Some(mac) = mac_in(octets) {
                return Some(mac);
            }
        }
        i += 1;
    }
    None
}

/// What comes to the parent of the DHCP server.
pub enum ServerParentEvent {
    /// The service is shut down.
    Shutdown,
    Worker(DhcpServerWorkerToParentMsg),
    /// The worker closed the connection, or the connection failed.
    WorkerGone,
    Netlink(NetlinkEvent),
    /// A message could not be sent to the worker.
    SendFailed,
}

/// What the parent of the DHCP server is to do.
pub enum ServerParentAction {
    Nothing,
    /// Report that the server is alive.
    Heartbeat,
    /// Tell the DNS forwarder about a host.
    Announce(LocalHostEvent),
    Send(DhcpServerParentToWorkerMsg),
    /// Terminate the worker.
    Stop,
}

/// Whether `action` is what the parent of the DHCP server does on `event`.
pub open spec fn server_event_handled(event: ServerParentEvent, action: ServerParentAction) -> bool {
    match event {
        ServerParentEvent::Shutdown => action is Stop,
        ServerParentEvent::WorkerGone => action is Stop,
        ServerParentEvent::SendFailed => action is Stop,
        ServerParentEvent::Worker(DhcpServerWorkerToParentMsg::Heartbeat) => action is Heartbeat,
        ServerParentEvent::Worker(DhcpServerWorkerToParentMsg::RegisterLocalHost { name, ip }) =>
            action == ServerParentAction::Announce(LocalHostEvent::Register { name, ip }),
        ServerParentEvent::Worker(DhcpServerWorkerToParentMsg::DeregisterLocalHost { name }) =>
            action == ServerParentAction::Announce(LocalHostEvent::Deregister { name }),
        ServerParentEvent::Netlink(report) => match neighbor_in(report) {
            Some((ip_address, mac_address)) => action == ServerParentAction::Send(
                DhcpServerParentToWorkerMsg::AddNeighbor { ip_address, mac_address },
            ),
            None => action is Nothing,
        },
    }
}

/// Decides what the parent of the DHCP server does when something happens.
pub fn run_parent_dhcp_server_monitor(event: ServerParentEvent) -> (r: ServerParentAction)
    ensures
        server_event_handled(event, r),
{
    match event {
        ServerParentEvent::Shutdown => ServerParentAction::Stop,
        ServerParentEvent::WorkerGone => ServerParentAction::Stop,
        ServerParentEvent::SendFailed => ServerParentAction::Stop,
        ServerParentEvent::Worker(DhcpServerWorkerToParentMsg::Heartbeat) =>
            ServerParentAction::Heartbeat,
        ServerParentEvent::Worker(DhcpServerWorkerToParentMsg::RegisterLocalHost { name, ip }) =>
            ServerParentAction::Announce(LocalHostEvent::Register { name, ip }),
        ServerParentEvent::Worker(DhcpServerWorkerToParentMsg::DeregisterLocalHost { name }) =>
            ServerParentAction::Announce(LocalHostEvent::Deregister { name }),
        ServerParentEvent::Netlink(report) => match parse_neighbor_update(&report) {
            Some((ip_address, mac_address)) => ServerParentAction::Send(
                DhcpServerParentToWorkerMsg::AddNeighbor { ip_address, mac_address },
            ),
            None => ServerParentAction::Nothing,
        },
    }
}

} // verus!
