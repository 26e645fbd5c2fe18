//! The lease that the router holds on the WAN, as its services see it, and
//! what is done to the WAN interface when it changes.

use crate::addr::{mask_to_prefix_len, netmask, prefix_len_to_mask, Ipv4Addr, Ipv4Net, RouterError};
use crate::dhcp_client::DhcpError;
use crate::ipc::DhcpClientToParentMsg;
use crate::text::{append_list, listed, CleanOption};
use vstd::prelude::*;

verus! {

/// The lease on the WAN; no address where there is none.
#[derive(Clone, Debug, PartialEq, Eq)]
pub struct WanLease {
    pub ip: Option<Ipv4Addr>,
    pub mask: Option<Ipv4Addr>,
    pub gateway: Option<Ipv4Addr>,
    pub dns_servers: Vec<Ipv4Addr>,
}

/// The lease on the WAN, with its name servers as a sequence.
pub struct WanLeaseView {
    pub ip: Option<Ipv4Addr>,
    pub mask: Option<Ipv4Addr>,
    pub gateway: Option<Ipv4Addr>,
    pub dns_servers: Seq<Ipv4Addr>,
}

impl View for WanLease {
    type V = WanLeaseView;

    open spec fn view(&self) -> WanLeaseView {
        WanLeaseView {
            ip: self.ip,
            mask: self.mask,
            gateway: self.gateway,
            dns_servers: self.dns_servers@,
        }
    }
}

/// No lease at all.
pub open spec fn no_lease() -> WanLeaseView {
    WanLeaseView { ip: None, mask: None, gateway: None, dns_servers: Seq::empty() }
}

impl Default for WanLease {
    fn default() -> (r: WanLease)
        ensures
            r@ == no_lease(),
    {
        let r = WanLease { ip: None, mask: None, gateway: None, dns_servers: Vec::new() };
        assert(r@.dns_servers =~= Seq::empty());
        r
    }
}

/// Whether two lists hold the same addresses in the same order.
pub fn same_addresses(a: &Vec<Ipv4Addr>, b: &Vec<Ipv4Addr>) -> (r: bool)
    ensures
        r == (a@ == b@),
{
    if a.len() != b.len() {
        return false;
    }
    let mut i: usize = 0;
    while i < a.len()
        invariant
            i <= a.len(),
            a.len() == b.len(),
            forall|j: int| 0 <= j < i ==> a@[j] == b@[j],
        decreases a.len() - i,
    {
        if a[i] != b[i] {
            return false;
        }
        i += 1;
    }
    assert(a@ =~= b@);
    true
}

fn same_option(a: Option<Ipv4Addr>, b: Option<Ipv4Addr>) -> (r: bool)
    ensures
        r == (a == b),
{
    match (a, b) {
        (Some(x), Some(y)) => x == y,
        (None, None) => true,
        _ => false,
    }
}

impl WanLease {
    /// Whether two leases agree in everything.
    pub fn same(&self, other: &WanLease) -> (r: bool)
        ensures
            r == (self@ == other@),
    {
        same_option(self.ip, other.ip) && same_option(self.mask, other.mask) && same_option(
            self.gateway,
            other.gateway,
        ) && same_addresses(&self.dns_servers, &other.dns_servers)
    }
}

impl WanLeaseView {
    /// How the lease is put in words.
    pub open spec fn worded(self) -> Seq<char> {
        "WanLease { ip: "@ + CleanOption(&self.ip).worded() + ", mask: "@ + CleanOption(
            &self.mask,
        ).worded() + ", gateway: "@ + CleanOption(&self.gateway).worded() + ", dns_servers: ["@
            + listed(self.dns_servers) + "] }"@
    }
}

impl WanLease {
    /// The lease in words.
    pub fn text(&self) -> (r: String)
        ensures
            r@ == self@.worded(),
    {
        let mut text = "WanLease { ip: ".to_owned();
        text.append(CleanOption(&self.ip).text().as_str());
        text.append(", mask: ");
        text.append(CleanOption(&self.mask).text().as_str());
        text.append(", gateway: ");
        text.append(CleanOption(&self.gateway).text().as_str());
        text.append(", dns_servers: [");
        append_list(&mut text, &self.dns_servers);
        text.append("] }");
        text
    }
}

/// The lease that has been granted.
pub open spec fn granted_lease(
    ip: Ipv4Addr,
    mask: Ipv4Addr,
    gateway: Ipv4Addr,
    dns_servers: Seq<Ipv4Addr>,
) -> WanLeaseView {
    WanLeaseView { ip: Some(ip), mask: Some(mask), gateway: Some(gateway), dns_servers }
}

/// Takes over a granted lease, and says whether it differs from the one held so
/// far: then it is to be published and the interface to be configured.
pub fn apply_parent_lease(
    current: &mut WanLease,
    ip_address: Ipv4Addr,
    mask: Ipv4Addr,
    gateway: Ipv4Addr,
    dns_servers: Vec<Ipv4Addr>,
) -> (changed: bool)
    ensures
        final(current)@ == granted_lease(ip_address, mask, gateway, dns_servers@),
        changed == (old(current)@ != final(current)@),
{
    let new_lease = WanLease {
        ip: Some(ip_address),
        mask: Some(mask),
        gateway: Some(gateway),
        dns_servers,
    };
    let changed = !current.same(&new_lease);
    if changed {
        *current = new_lease;
    }
    changed
}

/// The address and the mask of a lease that has both.
pub open spec fn configured(lease: WanLeaseView) -> Option<(Ipv4Addr, Ipv4Addr)> {
    if lease.ip is Some && lease.mask is Some {
        Some((lease.ip->0, lease.mask->0))
    } else {
        None
    }
}

/// Forgets the lease, and says which address is to be taken off the interface.
pub fn clear_parent_lease(current: &mut WanLease) -> (r: Option<(Ipv4Addr, Ipv4Addr)>)
    ensures
        final(current)@ == no_lease(),
        r == configured(old(current)@),
{
    let ip = current.ip;
    let mask = current.mask;
    *current = WanLease::default();
    match (ip, mask) {
        (Some(ip), Some(mask)) => Some((ip, mask)),
        _ => None,
    }
}

/// What comes from the DHCP client.
pub enum ClientEvent {
    Message(DhcpClientToParentMsg),
    /// The client closed the connection.
    Closed,
    /// The connection failed.
    Failed,
}

/// What is to be done to the WAN interface.
#[derive(Clone, Copy, Debug, PartialEq, Eq, Structural)]
pub enum NetworkChange {
    Keep,
    Configure { ip: Ipv4Addr, mask: Ipv4Addr, gateway: Ipv4Addr },
    Deconfigure { ip: Ipv4Addr, mask: Ipv4Addr },
}

/// What the parent of the DHCP client is to do.
#[derive(Clone, Copy, Debug, PartialEq, Eq, Structural)]
pub struct ParentStep {
    /// Report that the client is alive.
    pub heartbeat: bool,
    /// Tell the other services about the lease.
    pub publish: bool,
    /// Change the WAN interface.
    pub change: NetworkChange,
    /// Terminate the client.
    pub stop: bool,
}

/// Whether `step` is what the parent does on `event`, where `after` takes the
/// place of the lease `before`.
pub open spec fn client_event_handled(
    before: WanLeaseView,
    event: ClientEvent,
    after: WanLeaseView,
    step: ParentStep,
) -> bool {
    match event {
        ClientEvent::Message(DhcpClientToParentMsg::Heartbeat) => {
            &&& after == before
            &&& step == (ParentStep {
                heartbeat: true,
                publish: false,
                change: NetworkChange::Keep,
                stop: false,
            })
        },
        ClientEvent::Message(
            DhcpClientToParentMsg::ApplyWanLease { ip_address, prefix_len, gateway, dns_servers },
        ) => {
            let mask = Ipv4Addr { bits: netmask(prefix_len) };
            &&& after == granted_lease(ip_address, mask, gateway, dns_servers@)
            &&& step == (ParentStep {
                heartbeat: true,
                publish: before != after,
                change: if before != after {
                    NetworkChange::Configure { ip: ip_address, mask, gateway }
                } else {
                    NetworkChange::Keep
                },
                stop: false,
            })
        },
        ClientEvent::Message(DhcpClientToParentMsg::ClearWanLease) => {
            &&& after == no_lease()
            &&& step == (ParentStep {
                heartbeat: true,
                publish: true,
                change: match configured(before) {
                    Some((ip, mask)) => NetworkChange::Deconfigure { ip, mask },
                    None => NetworkChange::Keep,
                },
                stop: false,
            })
        },
        _ => {
            &&& after == before
            &&& step == (ParentStep {
                heartbeat: false,
                publish: false,
                change: NetworkChange::Keep,
                stop: true,
            })
        },
    }
}

/// Decides what the parent of the DHCP client does when something comes from
/// the client.
pub fn run_parent_dhcp_monitor(current: &mut WanLease, event: ClientEvent) -> (r: ParentStep)
    ensures
        client_event_handled(old(current)@, event, final(current)@, r),
{
    match event {
        ClientEvent::Message(DhcpClientToParentMsg::Heartbeat) => ParentStep {
            heartbeat: true,
            publish: false,
            change: NetworkChange::Keep,
            stop: false,
        },
        ClientEvent::Message(
            DhcpClientToParentMsg::ApplyWanLease { ip_address, prefix_len, gateway, dns_servers },
        ) => {
            let mask = prefix_len_to_mask(prefix_len);
            let changed = apply_parent_lease(current, ip_address, mask, gateway, dns_servers);
            ParentStep {
                heartbeat: true,
                publish: changed,
                change: if changed {
                    NetworkChange::Configure { ip: ip_address, mask, gateway }
                } else {
                    NetworkChange::Keep
                },
                stop: false,
            }
        },
        ClientEvent::Message(DhcpClientToParentMsg::ClearWanLease) => {
            let change = match clear_parent_lease(current) {
                Some((ip, mask)) => NetworkChange::Deconfigure { ip, mask },
                None => NetworkChange::Keep,
            };
            ParentStep { heartbeat: true, publish: true, change, stop: false }
        },
        _ => ParentStep {
            heartbeat: false,
            publish: false,
            change: NetworkChange::Keep,
            stop: true,
        },
    }
}

/// A lease that is granted again as it stands leaves the interface and the
/// other services alone.
pub proof fn law_same_lease_changes_nothing(
    before: WanLeaseView,
    ip_address: Ipv4Addr,
    prefix_len: u8,
    gateway: Ipv4Addr,
    dns_servers: Vec<Ipv4Addr>,
    first: (WanLeaseView, ParentStep),
    second: (WanLeaseView, ParentStep),
)
    requires
        ({
            let event = ClientEvent::Message(
                DhcpClientToParentMsg::ApplyWanLease {
                    ip_address,
                    prefix_len,
                    gateway,
                    dns_servers,
                },
            );
            &&& client_event_handled(before, event, first.0, first.1)
            &&& client_event_handled(first.0, event, second.0, second.1)
        }),
    ensures
        second.0 == first.0,
        !second.1.publish,
        second.1.change == NetworkChange::Keep,
{
}

/// Clearing a lease that was granted takes exactly its address off the
/// interface, and leaves no lease behind.
pub proof fn law_clearing_undoes_granting(
    before: WanLeaseView,
    ip_address: Ipv4Addr,
    prefix_len: u8,
    gateway: Ipv4Addr,
    dns_servers: Vec<Ipv4Addr>,
    granted: (WanLeaseView, ParentStep),
    cleared: (WanLeaseView, ParentStep),
)
    requires
        client_event_handled(
            before,
            ClientEvent::Message(
                DhcpClientToParentMsg::ApplyWanLease {
                    ip_address,
                    prefix_len,
                    gateway,
                    dns_servers,
                },
            ),
            granted.0,
            granted.1,
        ),
        client_event_handled(
            granted.0,
            ClientEvent::Message(DhcpClientToParentMsg::ClearWanLease),
            cleared.0,
            cleared.1,
        ),
    ensures
        cleared.0 == no_lease(),
        cleared.1.publish,
        cleared.1.change == (NetworkChange::Deconfigure {
            ip: ip_address,
            mask: Ipv4Addr { bits: netmask(prefix_len) },
        }),
{
}

/// Whether the default route may go through a gateway: it is an address of a
/// host, in the subnet of the interface.
pub open spec fn may_be_gateway(gw: Ipv4Addr, ip: Ipv4Addr, prefix_len: u8) -> bool {
    &&& gw.bits != 0
    &&& gw.bits != 0xffff_ffff
    &&& prefix_len <= 32
    &&& (Ipv4Net { addr: ip, prefix_len }).has(gw)
}

/// Whether the default route may go through a gateway.
pub fn is_valid_gateway(gw: Ipv4Addr, ip: Ipv4Addr, prefix_len: u8) -> (r: bool)
    ensures
        r == may_be_gateway(gw, ip, prefix_len),
{
    if gw == Ipv4Addr::unspecified() || gw == Ipv4Addr::broadcast() {
        return false;
    }
    match Ipv4Net::new(ip, prefix_len) {
        Some(net) => net.contains(gw),
        None => false,
    }
}

/// How the WAN interface is to be set up: with an address of the given prefix
/// length, and with a default route where there is a gateway.
#[derive(Clone, Copy, Debug, PartialEq, Eq, Structural)]
pub struct WanPlan {
    pub index: u32,
    pub prefix_len: u8,
    pub default_route: Option<Ipv4Addr>,
}

/// Whether a mask is no netmask.
pub open spec fn is_no_netmask(mask: Ipv4Addr) -> bool {
    forall|len: u8| #[trigger] netmask(len) != mask.bits
}

/// Why an interface cannot be set up for an address with the given mask.
pub open spec fn setup_refused(
    wan_interface: Seq<char>,
    index: Option<u32>,
    mask: Ipv4Addr,
    e: DhcpError,
) -> bool {
    match e {
        DhcpError::Protocol(text) => is_no_netmask(mask) && text@
            == RouterError::NonContiguousMask(mask).worded(),
        DhcpError::InterfaceNotFound(name) => !is_no_netmask(mask) && index is None && name@
            == wan_interface,
        _ => false,
    }
}

/// Plans how the WAN interface, which has the given index, is set up. A gateway
/// that is not in its subnet is left out.
pub fn configure_wan(
    wan_interface: &str,
    index: Option<u32>,
    ip: Ipv4Addr,
    mask: Ipv4Addr,
    gateway: Option<Ipv4Addr>,
) -> (r: Result<WanPlan, DhcpError>)
    ensures
        match r {
            Ok(plan) => {
                &&& index == Some(plan.index)
                &&& plan.prefix_len <= 32
                &&& mask.bits == netmask(plan.prefix_len)
                &&& plan.default_route == if gateway is Some && may_be_gateway(
                    gateway->0,
                    ip,
                    plan.prefix_len,
                ) {
                    gateway
                } else {
                    None
                }
            },
            Err(e) => setup_refused(wan_interface@, index, mask, e),
        },
{
    let prefix_len: u8 = match mask_to_prefix_len(mask) {
        Ok(len) => len,
        Err(e) => return Err(DhcpError::Protocol(e.message())),
    };
    let index: u32 = match index {
        Some(index) => index,
        None => return Err(DhcpError::InterfaceNotFound(wan_interface.to_owned())),
    };
    let default_route = match gateway {
        Some(gw) => if is_valid_gateway(gw, ip, prefix_len) {
            Some(gw)
        } else {
            None
        },
        None => None,
    };
    Ok(WanPlan { index, prefix_len, default_route })
}

/// Finds the interface whose addresses are to be taken off.
pub fn deconfigure_wan(wan_interface: &str, index: Option<u32>, mask: Ipv4Addr) -> (r: Result<
    u32,
    DhcpError,
>)
    ensures
        match r {
            Ok(found) => index == Some(found) && !is_no_netmask(mask),
            Err(e) => setup_refused(wan_interface@, index, mask, e),
        },
{
    match mask_to_prefix_len(mask) {
        Ok(_) => {},
        Err(e) => return Err(DhcpError::Protocol(e.message())),
    }
    match index {
        Some(index) => Ok(index),
        None => Err(DhcpError::InterfaceNotFound(wan_interface.to_owned())),
    }
}

} // verus!
