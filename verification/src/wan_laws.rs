//! What becomes of a lease on the WAN: how it is taken over, and when the LAN
//! moves out of its way, told of what goes into the functions and what comes out.

use crate::addr::{
    law_netmask_injective, mac_from_slice, mask_to_prefix_len, netmask, parsed_subnet,
    prefix_len_to_mask, Ipv4Addr, Ipv4Net, MacAddr, RouterError,
};
use crate::dhcp_client::{lease_message, DhcpAck, DhcpError};
use crate::ipc::{DhcpClientToParentMsg, LocalHostEvent};
use crate::lan::{
    find_wan_subnet, is_subnet_overlap, is_subnet_prefix, is_valid_subnet_prefix, lan_step,
    overlap, resolve_conflict, LanDecision, LanEvent, LanRunner, LanStep, ShiftStep,
};
use crate::netlink::NetlinkEvent;
use crate::wan::{
    apply_parent_lease, clear_parent_lease, configure_wan, deconfigure_wan, is_valid_gateway,
    run_parent_dhcp_monitor, same_addresses, ClientEvent, NetworkChange, ParentStep, WanLease, WanPlan,
};
use vstd::prelude::*;

verus! {

/// The word whose first `len` bits are ones and whose others are zeros.
pub open spec fn leading_ones(len: u8) -> u32 {
    if len == 0 {
        0
    } else {
        0xffff_ffffu32 << (32 - len) as u32
    }
}

/// Whether two addresses agree in the bits that are set in `mask`.
pub open spec fn agree(a: Ipv4Addr, b: Ipv4Addr, mask: u32) -> bool {
    a.bits & mask == b.bits & mask
}

/// Whether some address agrees with each of two others in the bits of its mask.
pub open spec fn share(a: Ipv4Addr, a_mask: u32, b: Ipv4Addr, b_mask: u32) -> bool {
    exists|ip: Ipv4Addr| #[trigger] agree(ip, a, a_mask) && agree(ip, b, b_mask)
}

proof fn lemma_leading_ones(len: u8)
    requires
        len <= 32,
    ensures
        netmask(len) == leading_ones(len),
{
}

proof fn lemma_has_is_agree(net: Ipv4Net, ip: Ipv4Addr)
    requires
        net.prefix_len <= 32,
    ensures
        net.has(ip) == agree(ip, net.addr, leading_ones(net.prefix_len)),
{
    let (a, x, k) = (net.addr.bits, ip.bits, (32 - net.prefix_len) as u32);
    assert(k <= 31 ==> ((a & (0xffff_ffffu32 << k)) <= x && x <= (a | !(0xffff_ffffu32 << k)) <==> (x
        & (0xffff_ffffu32 << k)) == (a & (0xffff_ffffu32 << k)))) by (bit_vector);
    assert(a & 0 == 0 && x & 0 == 0 && (a | !0u32) == 0xffff_ffff) by (bit_vector);
}

proof fn lemma_overlap_is_share(a: Ipv4Net, b: Ipv4Net)
    requires
        a.prefix_len <= 32,
        b.prefix_len <= 32,
    ensures
        overlap(a, b) == share(
            a.addr,
            leading_ones(a.prefix_len),
            b.addr,
            leading_ones(b.prefix_len),
        ),
{
    let (m, n) = (leading_ones(a.prefix_len), leading_ones(b.prefix_len));
    if overlap(a, b) {
        let ip = choose|ip: Ipv4Addr| #[trigger] a.has(ip) && b.has(ip);
        lemma_has_is_agree(a, ip);
        lemma_has_is_agree(b, ip);
        assert(agree(ip, a.addr, m) && agree(ip, b.addr, n));
    }
    if share(a.addr, m, b.addr, n) {
        let ip = choose|ip: Ipv4Addr| #[trigger] agree(ip, a.addr, m) && agree(ip, b.addr, n);
        lemma_has_is_agree(a, ip);
        lemma_has_is_agree(b, ip);
        assert(a.has(ip) && b.has(ip));
    }
}

/// The mask of a prefix has ones in its first bits, as many as the prefix is
/// long, and zeros in the others.
pub proof fn law_mask_has_leading_ones(prefix_len: u8, r: Ipv4Addr, bit: u32)
    requires
        call_ensures(prefix_len_to_mask, (prefix_len,), r),
        bit < 32,
    ensures
        prefix_len <= 32 ==> ((r.bits >> bit) & 1 == 1 <==> bit >= 32 - prefix_len),
        prefix_len > 32 ==> r.bits == 0,
{
    if 0 < prefix_len <= 32 {
        let k = (32 - prefix_len) as u32;
        assert(k < 32 && bit < 32 ==> ((((0xffff_ffffu32 << k) >> bit) & 1 == 1) <==> bit >= k))
            by (bit_vector);
    } else {
        assert((0u32 >> bit) & 1 == 0) by (bit_vector);
    }
}

/// The prefix length of a mask is the one with that mask, and only a mask whose
/// ones all come before its zeros has one.
pub proof fn law_prefix_length_is_that_of_the_mask(mask: Ipv4Addr, r: Result<u8, RouterError>, len: u8)
    requires
        call_ensures(mask_to_prefix_len, (mask,), r),
        len <= 32,
    ensures
        r == Ok::<u8, RouterError>(len) <==> mask.bits == leading_ones(len),
        r matches Ok(found) ==> found <= 32 && mask.bits == leading_ones(found),
        r matches Err(e) ==> e == RouterError::NonContiguousMask(mask),
{
    lemma_leading_ones(len);
    if let Ok(found) = r {
        lemma_leading_ones(found);
        if mask.bits == leading_ones(len) {
            law_netmask_injective(found, len);
        }
    }
}

/// A subnet has exactly the addresses that agree with its own in the bits of its
/// prefix; the lowest of them has only zeros in the others, the highest only
/// ones.
pub proof fn law_subnet_is_its_prefix(net: Ipv4Net, ip: Ipv4Addr, inside: bool, low: Ipv4Addr, high: Ipv4Addr)
    requires
        net.prefix_len <= 32,
        call_ensures(Ipv4Net::contains, (&net, ip), inside),
        call_ensures(Ipv4Net::network, (&net,), low),
        call_ensures(Ipv4Net::broadcast, (&net,), high),
    ensures
        inside == agree(ip, net.addr, leading_ones(net.prefix_len)),
        inside ==> low.bits <= ip.bits <= high.bits,
        agree(low, net.addr, leading_ones(net.prefix_len)),
        agree(high, net.addr, leading_ones(net.prefix_len)),
        low.bits & !leading_ones(net.prefix_len) == 0,
        high.bits | leading_ones(net.prefix_len) == 0xffff_ffff,
{
    lemma_has_is_agree(net, ip);
    let (a, m) = (net.addr.bits, leading_ones(net.prefix_len));
    assert((a & m) & m == a & m && (a | !m) & m == a & m && (a & m) & !m == 0 && ((a | !m) | m)
        == 0xffff_ffff) by (bit_vector);
}

/// The hosts of a subnet are its addresses in order, without the lowest and the
/// highest where there are more than two.
pub proof fn law_hosts_are_counted_up(net: Ipv4Net, n: u32, r: Option<Ipv4Addr>, low: Ipv4Addr, high: Ipv4Addr)
    requires
        net.prefix_len <= 32,
        call_ensures(Ipv4Net::host, (&net, n), r),
        call_ensures(Ipv4Net::network, (&net,), low),
        call_ensures(Ipv4Net::broadcast, (&net,), high),
    ensures
        net.prefix_len <= 30 ==> match r {
            Some(ip) => ip.bits == low.bits + 1 + n && ip.bits < high.bits,
            None => low.bits + 1 + n >= high.bits,
        },
        net.prefix_len > 30 ==> match r {
            Some(ip) => ip.bits == low.bits + n && ip.bits <= high.bits,
            None => low.bits + n > high.bits,
        },
{
}

/// Six octets spell a link-layer address, the first of them first; no other
/// number of octets does.
pub proof fn law_six_octets_spell_an_address(octets: &[u8], r: Result<MacAddr, RouterError>)
    requires
        call_ensures(mac_from_slice, (octets,), r),
    ensures
        octets@.len() == 6 ==> r == Ok::<MacAddr, RouterError>(
            MacAddr(octets@[0], octets@[1], octets@[2], octets@[3], octets@[4], octets@[5]),
        ),
        octets@.len() != 6 ==> r is Err,
{
    if let Ok(mac) = r {
        assert(octets@[0] == mac.0 && octets@[1] == mac.1 && octets@[2] == mac.2);
        assert(octets@[3] == mac.3 && octets@[4] == mac.4 && octets@[5] == mac.5);
    }
}

proof fn lemma_wan_subnet(lease: WanLease, r: Option<Ipv4Net>, len: u8)
    requires
        call_ensures(find_wan_subnet, (&lease,), r),
    ensures
        r matches Some(net) ==> lease.ip == Some(net.addr) && lease.mask is Some && 8
            <= net.prefix_len <= 30 && lease.mask->0.bits == leading_ones(net.prefix_len),
        lease.ip is Some && lease.mask is Some && 8 <= len <= 30 && lease.mask->0.bits
            == leading_ones(len) ==> r == Some(Ipv4Net { addr: lease.ip->0, prefix_len: len }),
{
    if r is Some {
        let mask = lease.mask->0;
        assert(exists|l: u8| is_subnet_prefix(l) && #[trigger] netmask(l) == mask.bits);
        let found = choose|l: u8| is_subnet_prefix(l) && #[trigger] netmask(l) == mask.bits;
        lemma_leading_ones(found);
    }
    if lease.ip is Some && lease.mask is Some && 8 <= len <= 30 && lease.mask->0.bits
        == leading_ones(len) {
        let mask = lease.mask->0;
        assert(is_subnet_prefix(len) && netmask(len) == mask.bits);
        let found = choose|l: u8| is_subnet_prefix(l) && #[trigger] netmask(l) == mask.bits;
        law_netmask_injective(found, len);
    }
}

/// The subnet of a lease has exactly the addresses that agree with the leased
/// address under the leased mask: its prefix is as long as the mask has leading
/// ones, from 8 to 30.
pub proof fn law_wan_subnet_follows_the_mask(
    lease: WanLease,
    r: Option<Ipv4Net>,
    ip: Ipv4Addr,
    mask: Ipv4Addr,
    len: u8,
    other: Ipv4Addr,
    inside: bool,
)
    requires
        call_ensures(find_wan_subnet, (&lease,), r),
        lease.ip == Some(ip),
        lease.mask == Some(mask),
        8 <= len <= 30,
        mask.bits == leading_ones(len),
        r matches Some(net) ==> call_ensures(Ipv4Net::contains, (&net, other), inside),
    ensures
        r matches Some(net) && net.addr == ip && net.prefix_len == len,
        inside == (other.bits & mask.bits == ip.bits & mask.bits),
{
    lemma_wan_subnet(lease, r, len);
    lemma_has_is_agree(Ipv4Net { addr: ip, prefix_len: len }, other);
}

/// A lease without an address or a mask, or with a mask that is none or leaves
/// no hosts, has no subnet.
pub proof fn law_other_leases_have_no_subnet(lease: WanLease, r: Option<Ipv4Net>)
    requires
        call_ensures(find_wan_subnet, (&lease,), r),
        lease.ip is Some && lease.mask is Some ==> forall|len: u8|
            8 <= len <= 30 ==> lease.mask->0.bits != #[trigger] leading_ones(len),
    ensures
        r is None,
{
    lemma_wan_subnet(lease, r, 8);
}

/// Two subnets overlap if and only if some address is in both.
pub proof fn law_overlap_is_a_shared_address(a: Ipv4Net, b: Ipv4Net, r: bool)
    requires
        a.prefix_len <= 32,
        b.prefix_len <= 32,
        call_ensures(is_subnet_overlap, (&a, &b), r),
    ensures
        r == share(a.addr, leading_ones(a.prefix_len), b.addr, leading_ones(b.prefix_len)),
{
    lemma_overlap_is_share(a, b);
}

/// What is done about the LAN follows from whether some address of its subnet,
/// or of the backup subnet, agrees with the leased address under the leased
/// mask: where the LAN has one and the backup has none, the LAN moves.
pub proof fn law_lan_moves_when_it_shares_an_address(
    runner: LanRunner,
    lease: WanLease,
    r: LanDecision,
    ip: Ipv4Addr,
    mask: Ipv4Addr,
    len: u8,
    current_text: &str,
    current: Option<Ipv4Net>,
    backup_text: &str,
    backup: Option<Ipv4Net>,
)
    requires
        call_ensures(LanRunner::check_and_resolve, (&runner, &lease), r),
        lease.ip == Some(ip),
        lease.mask == Some(mask),
        8 <= len <= 30,
        mask.bits == leading_ones(len),
        current_text@ == runner.current_ip@,
        backup_text@ == runner.backup_ip@,
        call_ensures(Ipv4Net::parse, (current_text,), current),
        call_ensures(Ipv4Net::parse, (backup_text,), backup),
    ensures
        ({
            let shares = |net: Option<Ipv4Net>|
                share(ip, mask.bits, net->0.addr, leading_ones(net->0.prefix_len));
            if current is None {
                r == LanDecision::InvalidCurrent
            } else if !shares(current) {
                r == LanDecision::NoConflict
            } else if runner.current_ip@ == runner.backup_ip@ {
                r == LanDecision::AlreadyOnBackup
            } else if backup is None {
                r == LanDecision::InvalidBackup
            } else if shares(backup) {
                r == LanDecision::BackupConflicts
            } else {
                r == LanDecision::Shift
            }
        }),
{
    let wan = crate::lan::wan_subnet(lease@);
    assert(wan == Some(Ipv4Net { addr: ip, prefix_len: len })) by {
        assert(is_subnet_prefix(len) && netmask(len) == mask.bits);
        let found = choose|l: u8| is_subnet_prefix(l) && #[trigger] netmask(l) == mask.bits;
        law_netmask_injective(found, len);
    }
    if let Some(net) = current {
        lemma_overlap_is_share(wan->0, net);
    }
    if let Some(net) = backup {
        lemma_overlap_is_share(wan->0, net);
    }
}

/// Without a lease that has a subnet, the LAN stays where it is.
pub proof fn law_lan_stays_without_a_wan_subnet(
    runner: LanRunner,
    lease: WanLease,
    r: LanDecision,
)
    requires
        call_ensures(LanRunner::check_and_resolve, (&runner, &lease), r),
        lease.ip is Some && lease.mask is Some ==> forall|len: u8|
            8 <= len <= 30 ==> lease.mask->0.bits != #[trigger] leading_ones(len),
    ensures
        r == LanDecision::NoConflict,
{
    if crate::lan::wan_subnet(lease@) is Some {
        let mask = lease.mask->0;
        let found = choose|l: u8| is_subnet_prefix(l) && #[trigger] netmask(l) == mask.bits;
        lemma_leading_ones(found);
    }
}

/// A prefix of 8 to 30 bits is one of a subnet with hosts.
pub proof fn law_subnets_with_hosts(prefix: u8, r: bool)
    requires
        call_ensures(is_valid_subnet_prefix, (prefix,), r),
    ensures
        r <==> 8 <= prefix && prefix <= 30,
{
}

/// Once the interface has the backup address, the LAN is on the backup subnet,
/// its DHCP server is started and the router is announced at its new address;
/// otherwise the LAN stays where it was.
pub proof fn law_lan_moves_to_the_backup(
    runner: &mut LanRunner,
    configured: bool,
    hostname: &str,
    r: ShiftStep,
    backup_text: &str,
    backup: Option<Ipv4Net>,
)
    requires
        call_ensures(LanRunner::shift_lan_subnet, (runner, configured, hostname), r),
        backup_text@ == old(runner).backup_ip@,
        call_ensures(Ipv4Net::parse, (backup_text,), backup),
    ensures
        final(runner).current_ip@ == if configured {
            old(runner).backup_ip@
        } else {
            old(runner).current_ip@
        },
        final(runner).backup_ip@ == old(runner).backup_ip@,
        final(runner).lan_interface@ == old(runner).lan_interface@,
        r.restart_server == configured,
        configured && backup is Some ==> (r.announce matches Some(
            LocalHostEvent::Register { name, ip },
        ) && name@ == hostname@ && ip == backup->0.addr),
        !configured || backup is None ==> r.announce is None,
{
}

/// The LAN is looked at when the lease or the addresses of the machine change,
/// and its manager ends with the service or the reports of the lease.
pub proof fn law_lan_is_looked_at_on_changes(event: LanEvent, r: LanStep)
    requires
        call_ensures(lan_step, (&event,), r),
    ensures
        match event {
            LanEvent::Shutdown => r.stop && !r.check,
            LanEvent::LeaseSenderGone => r.stop && !r.check,
            LanEvent::Tick => !r.stop && !r.check,
            LanEvent::LeaseChanged => !r.stop && r.check,
            LanEvent::Netlink(NetlinkEvent::NewLink) => !r.stop && r.check,
            LanEvent::Netlink(NetlinkEvent::NewAddress) => !r.stop && r.check,
            LanEvent::Netlink(NetlinkEvent::DelAddress) => !r.stop && r.check,
            LanEvent::Netlink(_) => !r.stop && !r.check,
        },
{
}

/// Whether a lease is the one with this address, mask, gateway and these name
/// servers.
pub open spec fn is_lease(
    lease: WanLease,
    ip: Ipv4Addr,
    mask: u32,
    gateway: Ipv4Addr,
    dns_servers: Seq<Ipv4Addr>,
) -> bool {
    &&& lease.ip == Some(ip)
    &&& lease.mask matches Some(m) && m.bits == mask
    &&& lease.gateway == Some(gateway)
    &&& lease.dns_servers@ == dns_servers
}

/// A granted lease is taken over. Where its address, its mask, its gateway or
/// its name servers differ from those held, it is published and the interface is
/// configured with its address, mask and gateway; where all are the same,
/// nothing is done.
pub proof fn law_changed_lease_is_published_and_configured(
    current: &mut WanLease,
    ip_address: Ipv4Addr,
    prefix_len: u8,
    gateway: Ipv4Addr,
    dns_servers: Vec<Ipv4Addr>,
    r: ParentStep,
)
    requires
        call_ensures(
            run_parent_dhcp_monitor,
            (
                current,
                ClientEvent::Message(
                    DhcpClientToParentMsg::ApplyWanLease {
                        ip_address,
                        prefix_len,
                        gateway,
                        dns_servers,
                    },
                ),
            ),
            r,
        ),
        prefix_len <= 32,
    ensures
        is_lease(
            *final(current),
            ip_address,
            leading_ones(prefix_len),
            gateway,
            dns_servers@,
        ),
        r.heartbeat,
        !r.stop,
        !is_lease(*old(current), ip_address, leading_ones(prefix_len), gateway, dns_servers@) ==> {
            &&& r.publish
            &&& r.change == (NetworkChange::Configure {
                ip: ip_address,
                mask: Ipv4Addr { bits: leading_ones(prefix_len) },
                gateway,
            })
        },
        is_lease(*old(current), ip_address, leading_ones(prefix_len), gateway, dns_servers@)
            ==> !r.publish && r.change == NetworkChange::Keep,
{
    lemma_leading_ones(prefix_len);
}

/// A lease that is given up is no longer held: that is published, and its address
/// is taken off the interface.
pub proof fn law_lost_lease_is_published_and_taken_off(
    current: &mut WanLease,
    r: ParentStep,
)
    requires
        call_ensures(
            run_parent_dhcp_monitor,
            (current, ClientEvent::Message(DhcpClientToParentMsg::ClearWanLease)),
            r,
        ),
    ensures
        final(current).ip is None,
        final(current).mask is None,
        final(current).gateway is None,
        final(current).dns_servers@.len() == 0,
        r.heartbeat,
        r.publish,
        !r.stop,
        old(current).ip is Some && old(current).mask is Some ==> r.change == (
        NetworkChange::Deconfigure { ip: old(current).ip->0, mask: old(current).mask->0 }),
        old(current).ip is None || old(current).mask is None ==> r.change == NetworkChange::Keep,
{
}

/// A sign of life is passed on and nothing else; the end of the client is the end
/// of its parent. The lease stays as it is.
pub proof fn law_other_messages_keep_the_lease(
    current: &mut WanLease,
    event: ClientEvent,
    r: ParentStep,
)
    requires
        call_ensures(run_parent_dhcp_monitor, (current, event), r),
        !(event matches ClientEvent::Message(DhcpClientToParentMsg::ApplyWanLease { .. })),
        !(event matches ClientEvent::Message(DhcpClientToParentMsg::ClearWanLease)),
    ensures
        final(current).ip == old(current).ip,
        final(current).mask == old(current).mask,
        final(current).gateway == old(current).gateway,
        final(current).dns_servers@ == old(current).dns_servers@,
        !r.publish,
        r.change == NetworkChange::Keep,
        r.heartbeat == (event is Message),
        r.stop == !(event is Message),
{
    assert(final(current)@ == old(current)@);
}

/// A granted lease differs from the one held where any part of it does.
pub proof fn law_any_difference_is_a_change(
    current: &mut WanLease,
    ip: Ipv4Addr,
    mask: Ipv4Addr,
    gateway: Ipv4Addr,
    dns_servers: Vec<Ipv4Addr>,
    changed: bool,
)
    requires
        call_ensures(apply_parent_lease, (current, ip, mask, gateway, dns_servers), changed),
    ensures
        changed == !is_lease(*old(current), ip, mask.bits, gateway, dns_servers@),
        is_lease(*final(current), ip, mask.bits, gateway, dns_servers@),
{
}

/// A lease that is cleared leaves nothing behind; what is taken off is the address
/// with its mask.
pub proof fn law_clearing_forgets_the_lease(
    current: &mut WanLease,
    r: Option<(Ipv4Addr, Ipv4Addr)>,
    ip: Ipv4Addr,
    mask: Ipv4Addr,
)
    requires
        call_ensures(clear_parent_lease, (current,), r),
    ensures
        final(current).ip is None,
        final(current).mask is None,
        final(current).gateway is None,
        final(current).dns_servers@.len() == 0,
        r == Some((ip, mask)) <==> old(current).ip == Some(ip) && old(current).mask == Some(mask),
{
}

/// What the client was granted is what its parent holds afterwards: the address,
/// the mask, the first router and the name servers. A mask that is none is
/// replaced by that of 24 bits, and a missing router by no address.
pub proof fn law_granted_address_is_put_to_use(
    ack: DhcpAck,
    msg: DhcpClientToParentMsg,
    current: &mut WanLease,
    r: ParentStep,
    mask_len: Result<u8, RouterError>,
)
    requires
        call_ensures(lease_message, (&ack,), msg),
        call_ensures(mask_to_prefix_len, (ack.mask,), mask_len),
        call_ensures(run_parent_dhcp_monitor, (current, ClientEvent::Message(msg)), r),
    ensures
        is_lease(
            *final(current),
            ack.ip,
            if mask_len is Ok {
                ack.mask.bits
            } else {
                0xffff_ff00
            },
            match ack.gateway {
                Some(router) => router,
                None => Ipv4Addr { bits: 0 },
            },
            ack.dns_servers@,
        ),
{
    assert(0xffff_ffffu32 << 8u32 == 0xffff_ff00) by (bit_vector);
}

/// A default route goes through a gateway only where it is a host of the subnet
/// of the interface.
pub proof fn law_gateway_is_in_the_subnet(gw: Ipv4Addr, ip: Ipv4Addr, prefix_len: u8, r: bool)
    requires
        call_ensures(is_valid_gateway, (gw, ip, prefix_len), r),
    ensures
        r <==> prefix_len <= 32 && gw.bits != 0 && gw.bits != 0xffff_ffff && agree(
            gw,
            ip,
            leading_ones(prefix_len),
        ),
{
    if prefix_len <= 32 {
        lemma_has_is_agree(Ipv4Net { addr: ip, prefix_len }, gw);
    }
}

/// The interface is set up with the prefix of the mask, and with a default route
/// where the gateway is a host of that subnet; it is refused for a mask that is
/// none, and for an interface that is not there.
pub proof fn law_interface_is_set_up_for_the_lease(
    wan_interface: &str,
    index: Option<u32>,
    ip: Ipv4Addr,
    mask: Ipv4Addr,
    gateway: Option<Ipv4Addr>,
    r: Result<WanPlan, DhcpError>,
    off: Result<u32, DhcpError>,
    len: u8,
)
    requires
        call_ensures(configure_wan, (wan_interface, index, ip, mask, gateway), r),
        call_ensures(deconfigure_wan, (wan_interface, index, mask), off),
        len <= 32,
        mask.bits == leading_ones(len),
    ensures
        index is None ==> (r matches Err(DhcpError::InterfaceNotFound(name)) && name@
            == wan_interface@),
        index is None ==> (off matches Err(DhcpError::InterfaceNotFound(name)) && name@
            == wan_interface@),
        index matches Some(found) ==> {
            &&& off == Ok::<u32, DhcpError>(found)
            &&& r matches Ok(plan)
            &&& plan.index == found
            &&& plan.prefix_len == len
            &&& plan.default_route == (if gateway is Some && gateway->0.bits != 0
                && gateway->0.bits != 0xffff_ffff && agree(gateway->0, ip, mask.bits) {
                gateway
            } else {
                None
            })
        },
{
    lemma_leading_ones(len);
    assert(netmask(len) == mask.bits);
    assert(!crate::wan::is_no_netmask(mask));
    if let Ok(plan) = r {
        law_netmask_injective(plan.prefix_len, len);
        if let Some(gw) = gateway {
            lemma_has_is_agree(Ipv4Net { addr: ip, prefix_len: len }, gw);
        }
    }
}

/// An interface is not set up, and nothing is taken off it, for a mask that is
/// none.
pub proof fn law_odd_masks_are_refused(
    wan_interface: &str,
    index: Option<u32>,
    ip: Ipv4Addr,
    mask: Ipv4Addr,
    gateway: Option<Ipv4Addr>,
    r: Result<WanPlan, DhcpError>,
    off: Result<u32, DhcpError>,
)
    requires
        call_ensures(configure_wan, (wan_interface, index, ip, mask, gateway), r),
        call_ensures(deconfigure_wan, (wan_interface, index, mask), off),
        forall|len: u8| len <= 32 ==> mask.bits != #[trigger] leading_ones(len),
    ensures
        r matches Err(DhcpError::Protocol(_)),
        off matches Err(DhcpError::Protocol(_)),
{
    assert forall|len: u8| #[trigger] netmask(len) != mask.bits by {
        if len <= 32 {
            lemma_leading_ones(len);
        } else {
            assert(leading_ones(0) == 0);
        }
    }
    if let Ok(plan) = r {
        assert(netmask(plan.prefix_len) != mask.bits);
    }
}

/// An address is made of its four numbers, the first of them most significant.
pub proof fn law_address_is_its_four_numbers(
    a: u8,
    b: u8,
    c: u8,
    d: u8,
    r: Ipv4Addr,
    lowest: Ipv4Addr,
    highest: Ipv4Addr,
)
    requires
        call_ensures(Ipv4Addr::new, (a, b, c, d), r),
        call_ensures(Ipv4Addr::unspecified, (), lowest),
        call_ensures(Ipv4Addr::broadcast, (), highest),
    ensures
        r.bits == ((a * 256 + b) * 256 + c) * 256 + d,
        lowest.bits == 0,
        highest.bits == u32::MAX,
{
}

/// A link-layer address is made of its six octets.
pub proof fn law_hardware_address_is_its_six_octets(
    a: u8,
    b: u8,
    c: u8,
    d: u8,
    e: u8,
    f: u8,
    r: MacAddr,
    none: MacAddr,
    all: MacAddr,
)
    requires
        call_ensures(MacAddr::new, (a, b, c, d, e, f), r),
        call_ensures(MacAddr::zero, (), none),
        call_ensures(MacAddr::broadcast, (), all),
    ensures
        r.0 == a && r.1 == b && r.2 == c && r.3 == d && r.4 == e && r.5 == f,
        none == MacAddr(0, 0, 0, 0, 0, 0),
        all == MacAddr(255, 255, 255, 255, 255, 255),
{
}

/// The number of a link-layer address is read back as that address, and is the
/// number that its octets spell, the first of them most significant.
pub proof fn law_number_of_an_address_is_read_back(mac: MacAddr, n: u64, back: MacAddr)
    requires
        call_ensures(MacAddr::to_number, (&mac,), n),
        call_ensures(MacAddr::from_number, (n,), back),
    ensures
        back == mac,
        n == ((((mac.0 * 256 + mac.1) * 256 + mac.2) * 256 + mac.3) * 256 + mac.4) * 256 + mac.5,
{
    crate::addr::lemma_mac_number_round_trip(mac);
    let (a, b, c, d, e, f) = (mac.0, mac.1, mac.2, mac.3, mac.4, mac.5);
    assert(((a as u64) << 40 | (b as u64) << 32 | (c as u64) << 24 | (d as u64) << 16 | (e as u64)
        << 8 | (f as u64)) == ((((a * 256 + b) * 256 + c) * 256 + d) * 256 + e) * 256 + f)
        by (bit_vector);
}

/// A subnet has a prefix of at most 32 bits.
pub proof fn law_subnet_has_its_prefix(addr: Ipv4Addr, prefix_len: u8, r: Option<Ipv4Net>)
    requires
        call_ensures(Ipv4Net::new, (addr, prefix_len), r),
    ensures
        r is Some <==> prefix_len <= 32,
        r matches Some(net) ==> net.addr == addr && net.prefix_len == prefix_len,
{
}

/// What is done about the LAN follows from the subnets: where some address is
/// both in that of the WAN and in that of the LAN, and none is both in that of
/// the WAN and in the backup, the LAN moves.
pub proof fn law_conflict_is_a_shared_address(
    wan: Option<Ipv4Net>,
    current: Option<Ipv4Net>,
    on_backup: bool,
    backup: Option<Ipv4Net>,
    r: LanDecision,
)
    requires
        call_ensures(resolve_conflict, (wan, current, on_backup, backup), r),
        wan is Some ==> wan->0.prefix_len <= 32,
        current is Some ==> current->0.prefix_len <= 32,
        backup is Some ==> backup->0.prefix_len <= 32,
    ensures
        ({
            let shares = |net: Option<Ipv4Net>|
                share(
                    wan->0.addr,
                    leading_ones(wan->0.prefix_len),
                    net->0.addr,
                    leading_ones(net->0.prefix_len),
                );
            r == if wan is None {
                LanDecision::NoConflict
            } else if current is None {
                LanDecision::InvalidCurrent
            } else if !shares(current) {
                LanDecision::NoConflict
            } else if on_backup {
                LanDecision::AlreadyOnBackup
            } else if backup is None {
                LanDecision::InvalidBackup
            } else if shares(backup) {
                LanDecision::BackupConflicts
            } else {
                LanDecision::Shift
            }
        }),
{
    if let Some(net) = wan {
        if let Some(lan) = current {
            lemma_overlap_is_share(net, lan);
        }
        if let Some(lan) = backup {
            lemma_overlap_is_share(net, lan);
        }
    }
}

/// The LAN starts on its first subnet.
pub proof fn law_lan_starts_on_its_first_subnet(
    interface: String,
    initial: String,
    backup: String,
    r: LanRunner,
)
    requires
        call_ensures(LanRunner::new, (interface, initial, backup), r),
    ensures
        r.lan_interface@ == interface@,
        r.current_ip@ == initial@,
        r.backup_ip@ == backup@,
{
}

/// Without a lease there is no address of any kind.
pub proof fn law_no_lease_has_no_address(r: WanLease)
    requires
        call_ensures(WanLease::default, (), r),
    ensures
        r.ip is None,
        r.mask is None,
        r.gateway is None,
        r.dns_servers@.len() == 0,
{
    assert(r@.dns_servers.len() == 0);
}

/// Two leases are the same where their addresses, masks, gateways and name servers
/// are, in the same order.
pub proof fn law_same_leases_agree_in_everything(
    a: WanLease,
    b: WanLease,
    r: bool,
    servers: bool,
)
    requires
        call_ensures(WanLease::same, (&a, &b), r),
        call_ensures(same_addresses, (&a.dns_servers, &b.dns_servers), servers),
    ensures
        r <==> a.ip == b.ip && a.mask == b.mask && a.gateway == b.gateway && servers,
        servers <==> a.dns_servers@.len() == b.dns_servers@.len() && forall|i: int|
            0 <= i < a.dns_servers@.len() ==> #[trigger] a.dns_servers@[i] == b.dns_servers@[i],
{
    if a.dns_servers@.len() == b.dns_servers@.len() && forall|i: int|
        0 <= i < a.dns_servers@.len() ==> #[trigger] a.dns_servers@[i] == b.dns_servers@[i] {
        assert(a.dns_servers@ =~= b.dns_servers@);
    }
    if r {
        assert(a@.dns_servers == b@.dns_servers);
    }
}

/// A subnet is read from a text with the address and the prefix that the text
/// spells; none is where it spells none.
pub proof fn law_subnet_is_read_as_it_is_spelt(text: &str, r: Option<Ipv4Net>)
    requires
        call_ensures(Ipv4Net::parse, (text,), r),
    ensures
        match parsed_subnet(text@) {
            Some((bits, prefix_len)) => r matches Some(net) && net.addr.bits == bits
                && net.prefix_len == prefix_len && prefix_len <= 32,
            None => r is None,
        },
{
}

} // verus!
