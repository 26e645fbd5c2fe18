//! Keeping the LAN off the subnet that the router is given on the WAN.

use crate::addr::{
    law_netmask_injective, mask_to_prefix_len, netmask, subnet_in, Ipv4Addr, Ipv4Net,
};
use crate::ipc::LocalHostEvent;
use crate::netlink::{is_address_or_link_event, NetlinkEvent};
use crate::wan::{configured, WanLease, WanLeaseView};
use vstd::prelude::*;

verus! {

/// How often the manager of the LAN reports that it is alive, in nanoseconds.
pub const LAN_HEARTBEAT_INTERVAL: u64 = 3_000_000_000;

/// Whether a prefix is that of a subnet with hosts, neither a route to
/// everywhere nor a link of two.
pub open spec fn is_subnet_prefix(prefix: u8) -> bool {
    8 <= prefix <= 30
}

/// Whether a prefix is that of a subnet with hosts.
pub fn is_valid_subnet_prefix(prefix: u8) -> (r: bool)
    ensures
        r == is_subnet_prefix(prefix),
{
    8 <= prefix && prefix <= 30
}

/// Whether two subnets have an address in common.
pub open spec fn overlap(net1: Ipv4Net, net2: Ipv4Net) -> bool {
    exists|ip: Ipv4Addr| #[trigger] net1.has(ip) && net2.has(ip)
}

/// A subnet is not empty.
proof fn lemma_first_to_last(net: Ipv4Net)
    ensures
        net.first() <= net.last(),
{
    let (a, m) = (net.addr.bits, netmask(net.prefix_len));
    assert(a & m <= a | !m) by (bit_vector);
}

/// Whether two subnets have an address in common.
pub fn is_subnet_overlap(net1: &Ipv4Net, net2: &Ipv4Net) -> (r: bool)
    requires
        net1.wf(),
        net2.wf(),
    ensures
        r == overlap(*net1, *net2),
{
    proof {
        lemma_first_to_last(*net1);
        lemma_first_to_last(*net2);
        let first1 = Ipv4Addr { bits: net1.first() };
        let first2 = Ipv4Addr { bits: net2.first() };
        assert(net1.has(first1) && net2.has(first2));
    }
    net1.contains(net2.network()) || net2.contains(net1.network())
}

/// The subnet that the router is given on the WAN, where it is one with hosts.
pub open spec fn wan_subnet(lease: WanLeaseView) -> Option<Ipv4Net> {
    match configured(lease) {
        Some((ip, mask)) => if exists|len: u8|
            is_subnet_prefix(len) && #[trigger] netmask(len) == mask.bits {
            Some(
                Ipv4Net {
                    addr: ip,
                    prefix_len: choose|len: u8|
                        is_subnet_prefix(len) && #[trigger] netmask(len) == mask.bits,
                },
            )
        } else {
            None
        },
        None => None,
    }
}

/// Finds the subnet that the router is given on the WAN.
pub fn find_wan_subnet(lease: &WanLease) -> (r: Option<Ipv4Net>)
    ensures
        r == wan_subnet(lease@),
        r is Some ==> r->0.wf(),
{
    let (ip, mask) = match (lease.ip, lease.mask) {
        (Some(ip), Some(mask)) => (ip, mask),
        _ => return None,
    };
    let prefix_len: u8 = match mask_to_prefix_len(mask) {
        Ok(len) => len,
        Err(_) => return None,
    };
    proof {
        assert forall|len: u8| is_subnet_prefix(len) && #[trigger] netmask(len)
            == mask.bits implies len == prefix_len by {
            law_netmask_injective(len, prefix_len);
        }
    }
    if !is_valid_subnet_prefix(prefix_len) {
        return None;
    }
    assert(is_subnet_prefix(prefix_len) && netmask(prefix_len) == mask.bits);
    Ipv4Net::new(ip, prefix_len)
}

/// What is done about the subnet of the LAN.
#[derive(Clone, Copy, Debug, PartialEq, Eq, Structural)]
pub enum LanDecision {
    /// Nothing: there is no conflict with the WAN.
    NoConflict,
    /// Nothing: the subnet of the LAN cannot be read.
    InvalidCurrent,
    /// Nothing: the LAN is on the backup subnet already.
    AlreadyOnBackup,
    /// Nothing: the backup subnet cannot be read.
    InvalidBackup,
    /// Nothing: the backup subnet is in conflict with the WAN too.
    BackupConflicts,
    /// The LAN moves to the backup subnet.
    Shift,
}

/// What is done about the LAN on the subnet `current`.
pub open spec fn decision(
    wan: Option<Ipv4Net>,
    current: Option<Ipv4Net>,
    on_backup: bool,
    backup: Option<Ipv4Net>,
) -> LanDecision {
    if wan is None {
        LanDecision::NoConflict
    } else if current is None {
        LanDecision::InvalidCurrent
    } else if !overlap(wan->0, current->0) {
        LanDecision::NoConflict
    } else if on_backup {
        LanDecision::AlreadyOnBackup
    } else if backup is None {
        LanDecision::InvalidBackup
    } else if overlap(wan->0, backup->0) {
        LanDecision::BackupConflicts
    } else {
        LanDecision::Shift
    }
}

/// Decides what is done about the LAN on the subnet `current`.
pub fn resolve_conflict(
    wan: Option<Ipv4Net>,
    current: Option<Ipv4Net>,
    on_backup: bool,
    backup: Option<Ipv4Net>,
) -> (r: LanDecision)
    requires
        wan is Some ==> wan->0.wf(),
        current is Some ==> current->0.wf(),
        backup is Some ==> backup->0.wf(),
    ensures
        r == decision(wan, current, on_backup, backup),
{
    let wan_net = match wan {
        Some(net) => net,
        None => return LanDecision::NoConflict,
    };
    let current_net = match current {
        Some(net) => net,
        None => return LanDecision::InvalidCurrent,
    };
    if !is_subnet_overlap(&wan_net, &current_net) {
        return LanDecision::NoConflict;
    }
    if on_backup {
        return LanDecision::AlreadyOnBackup;
    }
    let backup_net = match backup {
        Some(net) => net,
        None => return LanDecision::InvalidBackup,
    };
    if is_subnet_overlap(&wan_net, &backup_net) {
        return LanDecision::BackupConflicts;
    }
    LanDecision::Shift
}

/// The manager of the LAN.
#[derive(Clone, Debug, PartialEq, Eq)]
pub struct LanRunner {
    pub lan_interface: String,
    /// The address of the router on the LAN, with the length of its prefix.
    pub current_ip: String,
    /// The address that it takes where the other is in conflict with the WAN.
    pub backup_ip: String,
}

/// What follows once the interface has been given its new address.
#[derive(Clone, Debug, PartialEq, Eq)]
pub struct ShiftStep {
    /// Start a DHCP server for the new subnet.
    pub restart_server: bool,
    /// Tell the DNS forwarder about the new address of the router.
    pub announce: Option<LocalHostEvent>,
}

impl LanRunner {
    pub fn new(lan_interface: String, initial_ip: String, backup_ip: String) -> (r: LanRunner)
        ensures
            r.lan_interface == lan_interface,
            r.current_ip == initial_ip,
            r.backup_ip == backup_ip,
    {
        LanRunner { lan_interface, current_ip: initial_ip, backup_ip }
    }

    /// What is done about the LAN under a lease on the WAN.
    pub open spec fn decision_for(self, lease: WanLeaseView) -> LanDecision {
        decision(
            wan_subnet(lease),
            subnet_in(self.current_ip@),
            self.current_ip@ == self.backup_ip@,
            subnet_in(self.backup_ip@),
        )
    }

    /// Checks whether the LAN is in conflict with the lease on the WAN, and
    /// decides what is done about it.
    pub fn check_and_resolve(&self, lease: &WanLease) -> (r: LanDecision)
        ensures
            r == self.decision_for(lease@),
    {
        let wan = find_wan_subnet(lease);
        let current = Ipv4Net::parse(self.current_ip.as_str());
        let on_backup = self.current_ip == self.backup_ip;
        let backup = Ipv4Net::parse(self.backup_ip.as_str());
        resolve_conflict(wan, current, on_backup, backup)
    }

    /// Takes note of whether the interface could be given the backup address:
    /// if not, the LAN stays where it was, without a DHCP server.
    pub fn shift_lan_subnet(&mut self, configured: bool, router_hostname: &str) -> (r: ShiftStep)
        ensures
            final(self).lan_interface == old(self).lan_interface,
            final(self).backup_ip == old(self).backup_ip,
            final(self).current_ip@ == if configured {
                old(self).backup_ip@
            } else {
                old(self).current_ip@
            },
            r.restart_server == configured,
            configured && subnet_in(old(self).backup_ip@) is Some <==> r.announce is Some,
            r.announce matches Some(event) ==> event matches LocalHostEvent::Register { name, ip }
                && name@ == router_hostname@ && ip == subnet_in(old(self).backup_ip@)->0.addr,
    {
        if !configured {
            return ShiftStep { restart_server: false, announce: None };
        }
        self.current_ip = self.backup_ip.clone();
        let announce = match Ipv4Net::parse(self.current_ip.as_str()) {
            Some(net) => Some(
                LocalHostEvent::Register { name: router_hostname.to_owned(), ip: net.addr },
            ),
            None => None,
        };
        ShiftStep { restart_server: true, announce }
    }
}

/// What comes to the manager of the LAN.
pub enum LanEvent {
    /// The service is shut down.
    Shutdown,
    /// Some time has passed.
    Tick,
    /// The lease on the WAN has changed.
    LeaseChanged,
    /// Nobody will report changes of the lease any more.
    LeaseSenderGone,
    Netlink(NetlinkEvent),
}

/// What the manager of the LAN is to do.
#[derive(Clone, Copy, Debug, PartialEq, Eq, Structural)]
pub struct LanStep {
    /// Check for a conflict with the WAN.
    pub check: bool,
    /// Stop the DHCP server and end.
    pub stop: bool,
}

/// Decides what the manager of the LAN does when something happens.
pub fn lan_step(event: &LanEvent) -> (r: LanStep)
    ensures
        r.stop == (event is Shutdown || event is LeaseSenderGone),
        r.check == (event is LeaseChanged || (event matches LanEvent::Netlink(report) && (
        report is NewLink || report is NewAddress || report is DelAddress))),
{
    match event {
        LanEvent::Shutdown => LanStep { check: false, stop: true },
        LanEvent::LeaseSenderGone => LanStep { check: false, stop: true },
        LanEvent::Tick => LanStep { check: false, stop: false },
        LanEvent::LeaseChanged => LanStep { check: true, stop: false },
        LanEvent::Netlink(report) => LanStep {
            check: is_address_or_link_event(report),
            stop: false,
        },
    }
}

/// Overlapping is mutual.
pub proof fn law_overlap_is_symmetric(net1: Ipv4Net, net2: Ipv4Net)
    ensures
        overlap(net1, net2) == overlap(net2, net1),
{
    if overlap(net1, net2) {
        let ip = choose|ip: Ipv4Addr| #[trigger] net1.has(ip) && net2.has(ip);
        assert(net2.has(ip) && net1.has(ip));
    }
    if overlap(net2, net1) {
        let ip = choose|ip: Ipv4Addr| #[trigger] net2.has(ip) && net1.has(ip);
        assert(net1.has(ip) && net2.has(ip));
    }
}

/// The LAN moves only out of a conflict with the WAN, and only to a subnet that
/// shares no address with that of the WAN.
pub proof fn law_lan_moves_out_of_conflict(runner: LanRunner, lease: WanLeaseView, ip: Ipv4Addr)
    requires
        runner.decision_for(lease) == LanDecision::Shift,
    ensures
        wan_subnet(lease) is Some,
        subnet_in(runner.current_ip@) is Some,
        subnet_in(runner.backup_ip@) is Some,
        overlap(wan_subnet(lease)->0, subnet_in(runner.current_ip@)->0),
        !(wan_subnet(lease)->0.has(ip) && subnet_in(runner.backup_ip@)->0.has(ip)),
{
}

/// Once the LAN has moved, the same lease does not make it move again.
pub proof fn law_lan_settles(before: LanRunner, after: LanRunner, lease: WanLeaseView)
    requires
        before.decision_for(lease) == LanDecision::Shift,
        after.current_ip@ == before.backup_ip@,
    ensures
        after.decision_for(lease) == LanDecision::NoConflict,
{
}

/// Without a lease on the WAN, and under one whose subnet shares no address
/// with that of the LAN, the LAN stays where it is.
pub proof fn law_lan_stays_without_conflict(runner: LanRunner, lease: WanLeaseView)
    requires
        wan_subnet(lease) is Some && subnet_in(runner.current_ip@) is Some ==> !overlap(
            wan_subnet(lease)->0,
            subnet_in(runner.current_ip@)->0,
        ),
    ensures
        runner.decision_for(lease) != LanDecision::Shift,
{
}

} // verus!
