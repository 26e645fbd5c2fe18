//! The table of leases that the DHCP server has handed out.

use crate::addr::{Ipv4Addr, Ipv4Net, MacAddr, NANOS_PER_SEC};
use crate::keys::keys_of;
use std::collections::{HashMap, HashSet};
use vstd::prelude::*;

verus! {

broadcast use {vstd::std_specs::hash::group_hash_axioms, crate::addr::group_mac_numbers};

/// How often expired leases are cleared away.
pub const LEASE_CLEANUP_INTERVAL: u64 = 60 * NANOS_PER_SEC;

/// How long an offered address is held for the client it was offered to.
pub const CANDIDATE_HOLD_DURATION: u64 = 10 * NANOS_PER_SEC;

/// How long an address seen in use by a neighbor is held for it.
pub const NEIGHBOR_HOLD_DURATION: u64 = 300 * NANOS_PER_SEC;

/// An address held by a client until `expiry`.
#[derive(Clone, Debug, PartialEq, Eq)]
pub struct ClientLease {
    pub ip: Ipv4Addr,
    pub expiry: u64,
    pub hostname: Option<String>,
}

/// What a lease says, with its hostname as a sequence of characters.
pub struct LeaseView {
    pub ip: Ipv4Addr,
    pub expiry: u64,
    pub hostname: Option<Seq<char>>,
}

/// The characters of a hostname, where there is one.
pub open spec fn name_of(hostname: Option<String>) -> Option<Seq<char>> {
    match hostname {
        Some(h) => Some(h@),
        None => None,
    }
}

impl View for ClientLease {
    type V = LeaseView;

    open spec fn view(&self) -> LeaseView {
        LeaseView { ip: self.ip, expiry: self.expiry, hostname: name_of(self.hostname) }
    }
}

/// The leases by client and the holds on addresses found in conflict.
#[verifier::ext_equal]
pub struct LeaseTableState {
    pub leases: Map<MacAddr, LeaseView>,
    pub conflicts: Map<Ipv4Addr, u64>,
}

impl LeaseTableState {
    /// Whether `mac` has a lease on `ip`, expired or not.
    pub open spec fn holds(self, mac: MacAddr, ip: Ipv4Addr) -> bool {
        self.leases.contains_key(mac) && self.leases[mac].ip == ip
    }

    /// Whether some client has a lease on `ip`, expired or not.
    pub open spec fn held(self, ip: Ipv4Addr) -> bool {
        exists|mac: MacAddr| #[trigger] self.holds(mac, ip)
    }

    /// Whether `mac` has a lease on `ip` that runs past `now`.
    pub open spec fn leases_to(self, mac: MacAddr, ip: Ipv4Addr, now: u64) -> bool {
        self.holds(mac, ip) && self.leases[mac].expiry > now
    }

    /// Whether a client other than `mac` has a lease on `ip` that runs past
    /// `now`.
    pub open spec fn ip_taken_by_other(self, ip: Ipv4Addr, mac: MacAddr, now: u64) -> bool {
        exists|other: MacAddr| other != mac && #[trigger] self.leases_to(other, ip, now)
    }

    /// Whether a client other than `mac` has a lease under `hostname` that
    /// runs past `now`.
    pub open spec fn hostname_taken_by_other(
        self,
        hostname: Seq<char>,
        mac: MacAddr,
        now: u64,
    ) -> bool {
        exists|other: MacAddr|
            other != mac && #[trigger] self.leases.contains_key(other) && self.leases[other].expiry
                > now && self.leases[other].hostname == Some(hostname)
    }

    /// Whether `ip` is under a conflict hold at `now`.
    pub open spec fn in_conflict(self, ip: Ipv4Addr, now: u64) -> bool {
        self.conflicts.contains_key(ip) && self.conflicts[ip] > now
    }

    /// Whether nobody has a lease on `ip` and no conflict hold stands in the
    /// way.
    pub open spec fn available(self, ip: Ipv4Addr, now: u64) -> bool {
        !self.held(ip) && !self.in_conflict(ip, now)
    }
}

/// The leases that run past `now`.
pub open spec fn unexpired_leases(leases: Map<MacAddr, LeaseView>, now: u64) -> Map<
    MacAddr,
    LeaseView,
> {
    Map::new(
        |mac: MacAddr| leases.contains_key(mac) && leases[mac].expiry > now,
        |mac: MacAddr| leases[mac],
    )
}

/// The conflict holds that run past `now`.
pub open spec fn unexpired_holds(conflicts: Map<Ipv4Addr, u64>, now: u64) -> Map<Ipv4Addr, u64> {
    Map::new(
        |ip: Ipv4Addr| conflicts.contains_key(ip) && conflicts[ip] > now,
        |ip: Ipv4Addr| conflicts[ip],
    )
}

/// Whether `mac` has a lease with a hostname that has run out at `now`.
pub open spec fn expired_with_name(
    leases: Map<MacAddr, LeaseView>,
    mac: MacAddr,
    now: u64,
) -> bool {
    leases.contains_key(mac) && leases[mac].expiry <= now && leases[mac].hostname is Some
}

/// Whether `names` are the hostnames of the leases of `macs`, in that order.
pub open spec fn hostnames_of(
    names: Seq<String>,
    leases: Map<MacAddr, LeaseView>,
    macs: Seq<MacAddr>,
) -> bool {
    &&& names.len() == macs.len()
    &&& forall|i: int| 0 <= i < names.len() ==> leases[macs[i]].hostname == Some(#[trigger] names[i]@)
}

/// Whether `names` holds the hostname of each lease that has run out at `now`,
/// once for each such lease, in some order.
pub open spec fn lists_expired_hostnames(
    names: Seq<String>,
    leases: Map<MacAddr, LeaseView>,
    now: u64,
) -> bool {
    exists|macs: Seq<MacAddr>|
        {
            &&& #[trigger] hostnames_of(names, leases, macs)
            &&& macs.no_duplicates()
            &&& forall|mac: MacAddr|
                #[trigger] macs.contains(mac) <==> expired_with_name(leases, mac, now)
        }
}

/// What a confirmed lease grants, and the hostname that the client gives up.
#[derive(Clone, Debug, PartialEq, Eq)]
pub struct LeaseConfirmation {
    pub ip: Ipv4Addr,
    pub hostname: Option<String>,
    pub old_hostname_to_deregister: Option<String>,
}

/// The name that a client gives up when it had `before` and now has `after`.
pub open spec fn name_given_up(before: Option<Seq<char>>, after: Option<Seq<char>>) -> Option<
    Seq<char>,
> {
    if before == after {
        None
    } else {
        before
    }
}

impl LeaseTableState {
    /// Whether `r` is the lowest host address of `net`, other than that of the
    /// server, that is available at `now`; `None` where there is none.
    pub open spec fn is_first_available(
        self,
        net: Ipv4Net,
        server_ip: Ipv4Addr,
        now: u64,
        r: Option<Ipv4Addr>,
    ) -> bool {
        match r {
            Some(ip) => {
                &&& net.has_host(ip)
                &&& ip != server_ip
                &&& self.available(ip, now)
                &&& forall|lower: Ipv4Addr|
                    net.has_host(lower) && lower.bits < ip.bits && lower != server_ip
                        ==> !#[trigger] self.available(lower, now)
            },
            None => forall|ip: Ipv4Addr|
                net.has_host(ip) && ip != server_ip ==> !#[trigger] self.available(ip, now),
        }
    }

    /// The lease of `mac`, where it runs past `now`.
    pub open spec fn active(self, mac: MacAddr, now: u64) -> Option<LeaseView> {
        if self.leases.contains_key(mac) && self.leases[mac].expiry > now {
            Some(self.leases[mac])
        } else {
            None
        }
    }

    /// The address that a client asks for: the one it names, else the one it
    /// has an active lease on.
    pub open spec fn target(
        self,
        mac: MacAddr,
        requested_ip: Option<Ipv4Addr>,
        now: u64,
    ) -> Option<Ipv4Addr> {
        match requested_ip {
            Some(ip) => Some(ip),
            None => match self.active(mac, now) {
                Some(lease) => Some(lease.ip),
                None => None,
            },
        }
    }

    /// Whether `mac` may be given `ip`: it lies in the subnet, is neither of
    /// its two ends nor the address of the server, and no other client has a
    /// live lease on it.
    pub open spec fn may_have(
        self,
        mac: MacAddr,
        ip: Ipv4Addr,
        server_ip: Ipv4Addr,
        net: Ipv4Net,
        now: u64,
    ) -> bool {
        &&& ip != server_ip
        &&& net.first() < ip.bits < net.last()
        &&& !self.ip_taken_by_other(ip, mac, now)
    }

    /// The hostname that `mac` is granted: the requested one, unless another
    /// client has it.
    pub open spec fn granted_name(self, mac: MacAddr, requested: Option<Seq<char>>, now: u64) -> Option<
        Seq<char>,
    > {
        match requested {
            Some(name) => if self.hostname_taken_by_other(name, mac, now) {
                None
            } else {
                Some(name)
            },
            None => None,
        }
    }

    /// The hostname on the lease of `mac`.
    pub open spec fn name_held(self, mac: MacAddr) -> Option<Seq<char>> {
        if self.leases.contains_key(mac) {
            self.leases[mac].hostname
        } else {
            None
        }
    }

    /// The table after `mac` was given `ip` under `hostname` until `expiry`.
    pub open spec fn with_lease(
        self,
        mac: MacAddr,
        ip: Ipv4Addr,
        expiry: int,
        hostname: Option<Seq<char>>,
    ) -> LeaseTableState {
        LeaseTableState {
            leases: self.leases.insert(
                mac,
                LeaseView { ip, expiry: expiry as u64, hostname },
            ),
            conflicts: self.conflicts,
        }
    }

    /// The table with a conflict hold on `ip` until `expiry`.
    pub open spec fn with_conflict(self, ip: Ipv4Addr, expiry: int) -> LeaseTableState {
        LeaseTableState {
            leases: self.leases,
            conflicts: self.conflicts.insert(ip, expiry as u64),
        }
    }

    /// Whether a neighbor seen at `ip` tells something new: it has a proper
    /// address of its own and no active lease on `ip`.
    pub open spec fn neighbor_is_news(self, mac: MacAddr, ip: Ipv4Addr, now: u64) -> bool {
        &&& mac != MacAddr(0, 0, 0, 0, 0, 0)
        &&& mac != MacAddr(0xff, 0xff, 0xff, 0xff, 0xff, 0xff)
        &&& !self.leases_to(mac, ip, now)
    }

    /// The table without what has run out at `now`.
    pub open spec fn evicted(self, now: u64) -> LeaseTableState {
        LeaseTableState {
            leases: unexpired_leases(self.leases, now),
            conflicts: unexpired_holds(self.conflicts, now),
        }
    }
}

/// The leases by client, with an index of the addresses that they hold and the
/// temporary holds on addresses found in conflict.
///
/// An address is in `allocated_ips` if and only if an entry of `by_mac` holds
/// it.
pub struct LeaseTable {
    by_mac: HashMap<u64, ClientLease>,
    allocated_ips: HashSet<u32>,
    conflicts: HashMap<u32, u64>,
}

impl View for LeaseTable {
    type V = LeaseTableState;

    closed spec fn view(&self) -> LeaseTableState {
        LeaseTableState {
            leases: Map::new(
                |mac: MacAddr| self.by_mac@.contains_key(mac.number()),
                |mac: MacAddr| self.by_mac@[mac.number()]@,
            ),
            conflicts: Map::new(
                |ip: Ipv4Addr| self.conflicts@.contains_key(ip.bits),
                |ip: Ipv4Addr| self.conflicts@[ip.bits],
            ),
        }
    }
}

impl LeaseTable {
    /// Whether the index lists `ip`.
    pub closed spec fn indexed(self, ip: Ipv4Addr) -> bool {
        self.allocated_ips@.contains(ip.bits)
    }

    /// The index lists exactly the addresses that a lease holds.
    pub closed spec fn wf(self) -> bool {
        &&& forall|n: u64| #[trigger] self.by_mac@.contains_key(n) ==> n < 0x1_0000_0000_0000
        &&& forall|ip: Ipv4Addr| #[trigger] self.indexed(ip) <==> self@.held(ip)
    }

    /// A table without leases or holds.
    pub fn new() -> (r: LeaseTable)
        ensures
            r.wf(),
            r@.leases == Map::<MacAddr, LeaseView>::empty(),
            r@.conflicts == Map::<Ipv4Addr, u64>::empty(),
    {
        let r = LeaseTable {
            by_mac: HashMap::new(),
            allocated_ips: HashSet::new(),
            conflicts: HashMap::new(),
        };
        assert(r@.leases =~= Map::empty());
        assert(r@.conflicts =~= Map::empty());
        r
    }

    /// The lease of `mac`, expired or not, if there is one.
    fn stored(&self, mac: &MacAddr) -> (r: Option<&ClientLease>)
        requires
            self.wf(),
        ensures
            match r {
                Some(lease) => self@.leases.contains_key(*mac) && lease@ == self@.leases[*mac],
                None => !self@.leases.contains_key(*mac),
            },
    {
        let key: u64 = mac.to_number();
        self.by_mac.get(&key)
    }

    /// The active lease of `mac`, if there is one.
    pub fn get(&self, mac: &MacAddr, now: u64) -> (r: Option<&ClientLease>)
        requires
            self.wf(),
        ensures
            match r {
                Some(lease) => self@.active(*mac, now) == Some(lease@),
                None => self@.active(*mac, now) is None,
            },
    {
        match self.stored(mac) {
            Some(lease) => if lease.expiry > now {
                Some(lease)
            } else {
                None
            },
            None => None,
        }
    }

    /// The number of leases.
    pub fn len(&self) -> (r: usize)
        requires
            self.wf(),
        ensures
            self@.leases.dom().finite(),
            r == self@.leases.dom().len(),
    {
        proof {
            let macs = self@.leases.dom();
            let numbers = self.by_mac@.dom();
            let of = |n: u64| MacAddr::of_number(n);
            assert forall|n: u64, m: u64|
                numbers.contains(n) && numbers.contains(m) && #[trigger] of(n) == #[trigger] of(
                    m,
                ) implies n == m by {
                assert(self.by_mac@.contains_key(n) && self.by_mac@.contains_key(m));
            }
            assert(numbers.map(of) =~= macs) by {
                assert forall|mac: MacAddr| macs.contains(mac) implies numbers.map(of).contains(
                    mac,
                ) by {
                    assert(numbers.contains(mac.number()) && of(mac.number()) == mac);
                }
                assert forall|mac: MacAddr| numbers.map(of).contains(mac) implies macs.contains(
                    mac,
                ) by {
                    let n = choose|n: u64| numbers.contains(n) && of(n) == mac;
                    assert(self.by_mac@.contains_key(n));
                }
            }
            vstd::set_lib::lemma_map_size(numbers, macs, of);
        }
        self.by_mac.len()
    }

    /// Whether there are no leases.
    pub fn is_empty(&self) -> (r: bool)
        requires
            self.wf(),
        ensures
            r == (self@.leases == Map::<MacAddr, LeaseView>::empty()),
    {
        proof {
            if self.by_mac@.is_empty() {
                assert(self@.leases =~= Map::empty());
            } else {
                let n = self.by_mac@.dom().choose();
                assert(self.by_mac@.contains_key(n));
                assert(self@.leases.contains_key(MacAddr::of_number(n)));
            }
        }
        self.by_mac.is_empty()
    }

    /// Whether a client other than `client_mac` has a live lease on `ip`.
    pub fn is_ip_taken_by_other(&self, ip: Ipv4Addr, client_mac: MacAddr, now: u64) -> (r: bool)
        requires
            self.wf(),
        ensures
            r == self@.ip_taken_by_other(ip, client_mac, now),
    {
        let keys = keys_of(&self.by_mac);
        let own: u64 = client_mac.to_number();
        let mut i: usize = 0;
        while i < keys.len()
            invariant
                self.wf(),
                i <= keys.len(),
                own == client_mac.number(),
                forall|n: u64| #[trigger] self.by_mac@.contains_key(n) <==> keys@.contains(n),
                forall|j: int|
                    0 <= j < i ==> !(self.by_mac@[#[trigger] keys@[j]].ip == ip
                        && self.by_mac@[keys@[j]].expiry > now && keys@[j] != own),
            decreases keys.len() - i,
        {
            let key: u64 = keys[i];
            assert(self.by_mac@.contains_key(key));
            if let Some(lease) = self.by_mac.get(&key) {
                if lease.ip == ip && lease.expiry > now && key != own {
                    assert(self@.leases_to(MacAddr::of_number(key), ip, now));
                    return true;
                }
            }
            i += 1;
        }
        proof {
            assert forall|other: MacAddr| other != client_mac implies !#[trigger] self@.leases_to(
                other,
                ip,
                now,
            ) by {
                if self@.leases_to(other, ip, now) {
                    assert(self.by_mac@.contains_key(other.number()));
                    let j = choose|j: int| 0 <= j < keys.len() && keys@[j] == other.number();
                    assert(MacAddr::of_number(own) == client_mac);
                    assert(MacAddr::of_number(keys@[j]) == other);
                }
            }
        }
        false
    }

    /// Whether a client other than `client_mac` has a live lease under
    /// `hostname`.
    pub fn is_hostname_taken_by_other(
        &self,
        hostname: &String,
        client_mac: MacAddr,
        now: u64,
    ) -> (r: bool)
        requires
            self.wf(),
        ensures
            r == self@.hostname_taken_by_other(hostname@, client_mac, now),
    {
        let keys = keys_of(&self.by_mac);
        let own: u64 = client_mac.to_number();
        let mut i: usize = 0;
        while i < keys.len()
            invariant
                self.wf(),
                i <= keys.len(),
                own == client_mac.number(),
                forall|n: u64| #[trigger] self.by_mac@.contains_key(n) <==> keys@.contains(n),
                forall|j: int|
                    0 <= j < i ==> !(keys@[j] != own && self.by_mac@[#[trigger] keys@[j]].expiry
                        > now && self.by_mac@[keys@[j]]@.hostname == Some(hostname@)),
            decreases keys.len() - i,
        {
            let key: u64 = keys[i];
            assert(self.by_mac@.contains_key(key));
            if let Some(lease) = self.by_mac.get(&key) {
                if key != own && lease.expiry > now {
                    if let Some(name) = &lease.hostname {
                        if *name == *hostname {
                            assert(self@.leases.contains_key(MacAddr::of_number(key)));
                            return true;
                        }
                    }
                }
            }
            i += 1;
        }
        proof {
            assert forall|other: MacAddr|
                other != client_mac && #[trigger] self@.leases.contains_key(other)
                    && self@.leases[other].expiry > now implies self@.leases[other].hostname
                != Some(hostname@) by {
                assert(self.by_mac@.contains_key(other.number()));
                let j = choose|j: int| 0 <= j < keys.len() && keys@[j] == other.number();
                assert(MacAddr::of_number(own) == client_mac);
                assert(MacAddr::of_number(keys@[j]) == other);
            }
        }
        false
    }

    /// Whether some client has a lease on `ip`, expired or not.
    fn has_holder(&self, ip: Ipv4Addr) -> (r: bool)
        requires
            forall|n: u64| #[trigger] self.by_mac@.contains_key(n) ==> n < 0x1_0000_0000_0000,
        ensures
            r == self@.held(ip),
    {
        let keys = keys_of(&self.by_mac);
        let mut i: usize = 0;
        while i < keys.len()
            invariant
                i <= keys.len(),
                forall|n: u64| #[trigger] self.by_mac@.contains_key(n) ==> n < 0x1_0000_0000_0000,
                forall|n: u64| #[trigger] self.by_mac@.contains_key(n) <==> keys@.contains(n),
                forall|j: int| 0 <= j < i ==> self.by_mac@[#[trigger] keys@[j]].ip != ip,
            decreases keys.len() - i,
        {
            let key: u64 = keys[i];
            assert(self.by_mac@.contains_key(key));
            if let Some(lease) = self.by_mac.get(&key) {
                if lease.ip == ip {
                    assert(self@.holds(MacAddr::of_number(key), ip));
                    return true;
                }
            }
            i += 1;
        }
        proof {
            assert forall|mac: MacAddr| !#[trigger] self@.holds(mac, ip) by {
                if self@.holds(mac, ip) {
                    assert(self.by_mac@.contains_key(mac.number()));
                    let j = choose|j: int| 0 <= j < keys.len() && keys@[j] == mac.number();
                }
            }
        }
        false
    }

    /// A client with a live lease on `ip`, if there is one.
    pub fn get_mac_by_ip(&self, ip: Ipv4Addr, now: u64) -> (r: Option<MacAddr>)
        requires
            self.wf(),
        ensures
            match r {
                Some(mac) => self@.leases_to(mac, ip, now),
                None => forall|mac: MacAddr|
                    #![trigger self@.leases_to(mac, ip, now)]
                    !self@.leases_to(mac, ip, now),
            },
    {
        let keys = keys_of(&self.by_mac);
        let mut i: usize = 0;
        while i < keys.len()
            invariant
                self.wf(),
                i <= keys.len(),
                forall|n: u64| #[trigger] self.by_mac@.contains_key(n) <==> keys@.contains(n),
                forall|j: int|
                    0 <= j < i ==> !(self.by_mac@[#[trigger] keys@[j]].ip == ip
                        && self.by_mac@[keys@[j]].expiry > now),
            decreases keys.len() - i,
        {
            let key: u64 = keys[i];
            assert(self.by_mac@.contains_key(key));
            if let Some(lease) = self.by_mac.get(&key) {
                if lease.ip == ip && lease.expiry > now {
                    return Some(MacAddr::from_number(key));
                }
            }
            i += 1;
        }
        proof {
            assert forall|mac: MacAddr| !#[trigger] self@.leases_to(mac, ip, now) by {
                if self@.leases_to(mac, ip, now) {
                    assert(self.by_mac@.contains_key(mac.number()));
                    let j = choose|j: int| 0 <= j < keys.len() && keys@[j] == mac.number();
                }
            }
        }
        None
    }

    /// Gives `mac` the lease, in place of the one it had.
    pub fn insert(&mut self, mac: MacAddr, lease: ClientLease)
        requires
            old(self).wf(),
        ensures
            final(self).wf(),
            final(self)@.leases == old(self)@.leases.insert(mac, lease@),
            final(self)@.conflicts == old(self)@.conflicts,
    {
        let ghost before = *self;
        let ghost view = lease@;
        let key: u64 = mac.to_number();
        let ip: Ipv4Addr = lease.ip;
        let replaced = self.by_mac.insert(key, lease);
        self.allocated_ips.insert(ip.bits);
        assert(self@.leases =~= before@.leases.insert(mac, view)) by {
            assert forall|m: MacAddr| m != mac implies m.number() != key by {
                assert(MacAddr::of_number(m.number()) == m);
            }
        }
        if let Some(dropped) = replaced {
            if !self.has_holder(dropped.ip) {
                self.allocated_ips.remove(&dropped.ip.bits);
            }
        }
        assert(self@.leases =~= before@.leases.insert(mac, view));
        assert(self@.conflicts =~= before@.conflicts);
        proof {
            assert forall|a: Ipv4Addr| #[trigger] self.indexed(a) <==> self@.held(a) by {
                assert(before.indexed(a) <==> before@.held(a));
                assert(self@.holds(mac, ip));
                if before@.held(a) {
                    let m = choose|m: MacAddr| #[trigger] before@.holds(m, a);
                    if m != mac {
                        assert(self@.holds(m, a));
                    }
                }
                if self@.held(a) {
                    let m = choose|m: MacAddr| #[trigger] self@.holds(m, a);
                    if m != mac {
                        assert(before@.holds(m, a));
                    }
                }
            }
        }
    }

    /// Takes the lease of `mac` away and returns it.
    pub fn remove(&mut self, mac: &MacAddr) -> (r: Option<ClientLease>)
        requires
            old(self).wf(),
        ensures
            final(self).wf(),
            final(self)@.leases == old(self)@.leases.remove(*mac),
            final(self)@.conflicts == old(self)@.conflicts,
            match r {
                Some(lease) => old(self)@.leases.contains_key(*mac) && lease@
                    == old(self)@.leases[*mac],
                None => !old(self)@.leases.contains_key(*mac),
            },
    {
        let ghost before = *self;
        let key: u64 = mac.to_number();
        let removed = self.by_mac.remove(&key);
        assert(self@.leases =~= before@.leases.remove(*mac)) by {
            assert forall|m: MacAddr| m != *mac implies m.number() != key by {
                assert(MacAddr::of_number(m.number()) == m);
            }
        }
        if let Some(lease) = &removed {
            if !self.has_holder(lease.ip) {
                self.allocated_ips.remove(&lease.ip.bits);
            }
        }
        assert(self@.leases =~= before@.leases.remove(*mac));
        assert(self@.conflicts =~= before@.conflicts);
        proof {
            assert forall|a: Ipv4Addr| #[trigger] self.indexed(a) <==> self@.held(a) by {
                assert(before.indexed(a) <==> before@.held(a));
                if before@.held(a) {
                    let m = choose|m: MacAddr| #[trigger] before@.holds(m, a);
                    if m != *mac {
                        assert(self@.holds(m, a));
                    }
                }
                if self@.held(a) {
                    let m = choose|m: MacAddr| #[trigger] self@.holds(m, a);
                    assert(before@.holds(m, a));
                }
            }
        }
        removed
    }

    /// Whether `ip` is under a conflict hold.
    pub fn is_conflict_active(&self, ip: Ipv4Addr, now: u64) -> (r: bool)
        ensures
            r == self@.in_conflict(ip, now),
    {
        match self.conflicts.get(&ip.bits) {
            Some(expiry) => *expiry > now,
            None => false,
        }
    }

    /// Whether nobody has a lease on `ip` and no conflict hold stands in the
    /// way.
    pub fn is_ip_available(&self, ip: Ipv4Addr, now: u64) -> (r: bool)
        requires
            self.wf(),
        ensures
            r == self@.available(ip, now),
    {
        assert(self.indexed(ip) <==> self@.held(ip));
        !self.allocated_ips.contains(&ip.bits) && !self.is_conflict_active(ip, now)
    }

    /// Puts a conflict hold on `ip` for `duration`.
    pub fn record_conflict(&mut self, ip: Ipv4Addr, duration: u64, now: u64)
        requires
            old(self).wf(),
            now + duration <= u64::MAX,
        ensures
            final(self).wf(),
            final(self)@ == old(self)@.with_conflict(ip, now + duration),
    {
        let ghost before = *self;
        self.conflicts.insert(ip.bits, now + duration);
        assert(self@.leases =~= before@.leases);
        assert(self@.conflicts =~= before@.conflicts.insert(ip, (now + duration) as u64));
        proof {
            assert forall|a: Ipv4Addr| #[trigger] self.indexed(a) <==> self@.held(a) by {
                assert(before.indexed(a) <==> before@.held(a));
                assert(forall|m: MacAddr| self@.holds(m, a) == #[trigger] before@.holds(m, a));
                assert(forall|m: MacAddr| #[trigger] self@.holds(m, a) == before@.holds(m, a));
            }
        }
    }

    /// Drops the leases and the conflict holds that have run out, and returns
    /// the hostnames of the dropped leases.
    pub fn evict_expired(&mut self, now: u64) -> (r: Vec<String>)
        requires
            old(self).wf(),
        ensures
            final(self).wf(),
            final(self)@ == old(self)@.evicted(now),
            lists_expired_hostnames(r@, old(self)@.leases, now),
    {
        let names = self.evict_expired_leases(now);
        self.evict_expired_holds(now);
        self.rebuild_index();
        names
    }

    /// Drops the expired leases, leaving the index as it is.
    fn evict_expired_leases(&mut self, now: u64) -> (r: Vec<String>)
        requires
            forall|n: u64| #[trigger] old(self).by_mac@.contains_key(n) ==> n < 0x1_0000_0000_0000,
        ensures
            forall|n: u64| #[trigger]
                final(self).by_mac@.contains_key(n) ==> n < 0x1_0000_0000_0000,
            final(self)@.leases == unexpired_leases(old(self)@.leases, now),
            final(self)@.conflicts == old(self)@.conflicts,
            lists_expired_hostnames(r@, old(self)@.leases, now),
    {
        let ghost before = *self;
        let keys = keys_of(&self.by_mac);
        let mut names: Vec<String> = Vec::new();
        let ghost mut macs: Seq<MacAddr> = Seq::empty();
        let mut i: usize = 0;
        while i < keys.len()
            invariant
                i <= keys.len(),
                keys@.no_duplicates(),
                forall|n: u64| #[trigger] before.by_mac@.contains_key(n) ==> n < 0x1_0000_0000_0000,
                forall|n: u64| #[trigger] before.by_mac@.contains_key(n) <==> keys@.contains(n),
                self.conflicts == before.conflicts,
                forall|n: u64| #[trigger]
                    self.by_mac@.contains_key(n) <==> before.by_mac@.contains_key(n) && !(
                    keys@.take(i as int).contains(n) && before.by_mac@[n].expiry <= now),
                forall|n: u64| #[trigger]
                    self.by_mac@.contains_key(n) ==> self.by_mac@[n] == before.by_mac@[n],
                macs.no_duplicates(),
                hostnames_of(names@, before@.leases, macs),
                forall|m: MacAddr| #[trigger]
                    macs.contains(m) <==> keys@.take(i as int).contains(m.number())
                        && expired_with_name(before@.leases, m, now),
            decreases keys.len() - i,
        {
            let key: u64 = keys[i];
            let ghost prefix = keys@.take(i as int);
            let ghost longer = keys@.take(i + 1);
            proof {
                assert(longer =~= prefix.push(key));
                assert forall|n: u64| #[trigger] longer.contains(n) <==> prefix.contains(n) || n
                    == key by {
                    if prefix.contains(n) {
                        let j = choose|j: int| 0 <= j < prefix.len() && prefix[j] == n;
                        assert(longer[j] == n);
                    }
                    assert(longer[i as int] == key);
                }
                assert(!prefix.contains(key));
                assert(before.by_mac@.contains_key(key));
            }
            let ghost mac = MacAddr::of_number(key);
            assert(mac.number() == key);
            let expired: bool = match self.by_mac.get(&key) {
                Some(lease) => lease.expiry <= now,
                None => false,
            };
            assert(expired <==> before.by_mac@[key].expiry <= now);
            if expired {
                if let Some(lease) = self.by_mac.remove(&key) {
                    assert(lease == before.by_mac@[key]);
                    if let Some(name) = lease.hostname {
                        let ghost names_before = names@;
                        let ghost macs_before = macs;
                        names.push(name);
                        proof {
                            assert(!macs.contains(mac));
                            macs = macs.push(mac);
                            assert forall|m: MacAddr| #[trigger]
                                macs.contains(m) <==> macs_before.contains(m) || m == mac by {
                                if macs_before.contains(m) {
                                    let j = choose|j: int|
                                        0 <= j < macs_before.len() && macs_before[j] == m;
                                    assert(macs[j] == m);
                                }
                                assert(macs[macs_before.len() as int] == mac);
                            }
                        }
                    }
                }
            }
            proof {
                assert forall|m: MacAddr| #[trigger]
                    macs.contains(m) <==> longer.contains(m.number()) && expired_with_name(
                        before@.leases,
                        m,
                        now,
                    ) by {
                    if m.number() == key {
                        assert(MacAddr::of_number(m.number()) == m);
                    }
                }
            }
            i += 1;
        }
        proof {
            assert(keys@.take(i as int) =~= keys@);
            assert(self@.leases =~= unexpired_leases(before@.leases, now));
            assert(self@.conflicts =~= before@.conflicts);
            assert forall|m: MacAddr| #[trigger]
                macs.contains(m) <==> expired_with_name(before@.leases, m, now) by {
                if expired_with_name(before@.leases, m, now) {
                    assert(before.by_mac@.contains_key(m.number()));
                }
            }
        }
        names
    }

    /// Drops the conflict holds that have run out.
    fn evict_expired_holds(&mut self, now: u64)
        ensures
            final(self).by_mac == old(self).by_mac,
            final(self)@.leases == old(self)@.leases,
            final(self)@.conflicts == unexpired_holds(old(self)@.conflicts, now),
    {
        let ghost before = *self;
        let keys = keys_of(&self.conflicts);
        let mut i: usize = 0;
        while i < keys.len()
            invariant
                i <= keys.len(),
                keys@.no_duplicates(),
                forall|n: u32| #[trigger] before.conflicts@.contains_key(n) <==> keys@.contains(n),
                self.by_mac == before.by_mac,
                forall|n: u32| #[trigger]
                    self.conflicts@.contains_key(n) <==> before.conflicts@.contains_key(n) && !(
                    keys@.take(i as int).contains(n) && before.conflicts@[n] <= now),
                forall|n: u32| #[trigger]
                    self.conflicts@.contains_key(n) ==> self.conflicts@[n] == before.conflicts@[n],
            decreases keys.len() - i,
        {
            let key: u32 = keys[i];
            let ghost prefix = keys@.take(i as int);
            let ghost longer = keys@.take(i + 1);
            proof {
                assert(longer =~= prefix.push(key));
                assert forall|n: u32| #[trigger] longer.contains(n) <==> prefix.contains(n) || n
                    == key by {
                    if prefix.contains(n) {
                        let j = choose|j: int| 0 <= j < prefix.len() && prefix[j] == n;
                        assert(longer[j] == n);
                    }
                    assert(longer[i as int] == key);
                }
                assert(!prefix.contains(key));
                assert(before.conflicts@.contains_key(key));
            }
            let expired: bool = match self.conflicts.get(&key) {
                Some(expiry) => *expiry <= now,
                None => false,
            };
            if expired {
                self.conflicts.remove(&key);
            }
            i += 1;
        }
        proof {
            assert(keys@.take(i as int) =~= keys@);
            assert(self@.leases =~= before@.leases);
            assert(self@.conflicts =~= unexpired_holds(before@.conflicts, now));
        }
    }

    /// Sets the index to the addresses that the leases hold.
    fn rebuild_index(&mut self)
        requires
            forall|n: u64| #[trigger] old(self).by_mac@.contains_key(n) ==> n < 0x1_0000_0000_0000,
        ensures
            final(self).wf(),
            final(self)@ == old(self)@,
    {
        let ghost before = *self;
        let keys = keys_of(&self.by_mac);
        let mut index: HashSet<u32> = HashSet::new();
        let mut i: usize = 0;
        while i < keys.len()
            invariant
                i <= keys.len(),
                forall|n: u64| #[trigger] self.by_mac@.contains_key(n) <==> keys@.contains(n),
                forall|bits: u32| #[trigger]
                    index@.contains(bits) <==> exists|j: int|
                        0 <= j < i && self.by_mac@[#[trigger] keys@[j]].ip.bits == bits,
            decreases keys.len() - i,
        {
            let key: u64 = keys[i];
            assert(self.by_mac@.contains_key(key));
            let ghost index_before = index@;
            if let Some(lease) = self.by_mac.get(&key) {
                index.insert(lease.ip.bits);
            }
            proof {
                assert forall|bits: u32| #[trigger] index@.contains(bits) <==> exists|j: int|
                    0 <= j < i + 1 && self.by_mac@[#[trigger] keys@[j]].ip.bits == bits by {
                    if index_before.contains(bits) {
                        let j = choose|j: int|
                            0 <= j < i && self.by_mac@[#[trigger] keys@[j]].ip.bits == bits;
                        assert(self.by_mac@[keys@[j]].ip.bits == bits);
                    }
                    assert(keys@[i as int] == key);
                }
            }
            i += 1;
        }
        self.allocated_ips = index;
        proof {
            assert(self@.leases =~= before@.leases);
            assert(self@.conflicts =~= before@.conflicts);
            assert forall|ip: Ipv4Addr| #[trigger] self.indexed(ip) <==> self@.held(ip) by {
                if self.indexed(ip) {
                    let j = choose|j: int|
                        0 <= j < keys.len() && self.by_mac@[#[trigger] keys@[j]].ip.bits == ip.bits;
                    assert(self.by_mac@.contains_key(keys@[j]));
                    assert(self@.holds(MacAddr::of_number(keys@[j]), ip));
                }
                if self@.held(ip) {
                    let m = choose|m: MacAddr| #[trigger] self@.holds(m, ip);
                    assert(self.by_mac@.contains_key(m.number()));
                    let j = choose|j: int| 0 <= j < keys.len() && keys@[j] == m.number();
                    assert(self.by_mac@[keys@[j]].ip.bits == ip.bits);
                }
            }
        }
    }

    /// Drops what has run out, then finds the lowest available host address
    /// of `net` other than that of the server.
    pub fn next_available_ip(&mut self, net: Ipv4Net, server_ip: Ipv4Addr, now: u64) -> (r: Option<
        Ipv4Addr,
    >)
        requires
            old(self).wf(),
            net.wf(),
        ensures
            final(self).wf(),
            final(self)@ == old(self)@.evicted(now),
            final(self)@.is_first_available(net, server_ip, now, r),
    {
        self.evict_expired(now);
        let ghost state = self@;
        let mut n: u32 = 0;
        loop
            invariant
                self.wf(),
                self@ == state,
                state == old(self)@.evicted(now),
                net.wf(),
                forall|ip: Ipv4Addr|
                    net.first_host() <= ip.bits < net.first_host() + n && ip != server_ip
                        ==> !#[trigger] state.available(ip, now),
            decreases u32::MAX - n,
        {
            match net.host(n) {
                Some(ip) => {
                    if ip != server_ip && self.is_ip_available(ip, now) {
                        return Some(ip);
                    }
                    proof {
                        lemma_host_count(net);
                    }
                    n += 1;
                },
                None => {
                    return None;
                },
            }
        }
    }

    /// Holds the lowest available address of `net` for `client_mac`.
    pub fn allocate_candidate(
        &mut self,
        client_mac: MacAddr,
        net: Ipv4Net,
        server_ip: Ipv4Addr,
        now: u64,
    ) -> (r: Option<Ipv4Addr>)
        requires
            old(self).wf(),
            net.wf(),
            now + CANDIDATE_HOLD_DURATION <= u64::MAX,
        ensures
            final(self).wf(),
            old(self)@.evicted(now).is_first_available(net, server_ip, now, r),
            final(self)@ == match r {
                Some(ip) => old(self)@.evicted(now).with_lease(
                    client_mac,
                    ip,
                    now + CANDIDATE_HOLD_DURATION,
                    None,
                ),
                None => old(self)@.evicted(now),
            },
    {
        let found = self.next_available_ip(net, server_ip, now);
        if let Some(ip) = found {
            self.insert(
                client_mac,
                ClientLease { ip, expiry: now + CANDIDATE_HOLD_DURATION, hostname: None },
            );
        }
        found
    }

    /// Gives `client_mac` the address that it asks for, or extends the active
    /// lease that it has, where it may have that address. The hostname that it
    /// gives up is that of its last lease, expired or not.
    pub fn validate_and_confirm(
        &mut self,
        client_mac: MacAddr,
        requested_ip: Option<Ipv4Addr>,
        server_ip: Ipv4Addr,
        net: Ipv4Net,
        duration: u64,
        requested_hostname: Option<String>,
        now: u64,
    ) -> (r: Option<LeaseConfirmation>)
        requires
            old(self).wf(),
            net.wf(),
            now + duration <= u64::MAX,
        ensures
            final(self).wf(),
            confirms(
                old(self)@,
                final(self)@,
                client_mac,
                requested_ip,
                server_ip,
                net,
                duration,
                name_of(requested_hostname),
                now,
                r,
            ),
    {
        let target_ip: Ipv4Addr = match requested_ip {
            Some(ip) => ip,
            None => match self.get(&client_mac, now) {
                Some(lease) => lease.ip,
                None => {
                    return None;
                },
            },
        };
        if target_ip == server_ip || target_ip == net.network() || target_ip == net.broadcast()
            || !net.contains(target_ip) || self.is_ip_taken_by_other(target_ip, client_mac, now) {
            return None;
        }
        let old_hostname: Option<String> = match self.stored(&client_mac) {
            Some(lease) => lease.hostname.clone(),
            None => None,
        };
        let effective_hostname: Option<String> = match requested_hostname {
            Some(name) => if self.is_hostname_taken_by_other(&name, client_mac, now) {
                None
            } else {
                Some(name)
            },
            None => None,
        };
        let old_hostname_to_deregister: Option<String> = match (&old_hostname, &effective_hostname) {
            (Some(before), Some(after)) => if *before != *after {
                Some(before.clone())
            } else {
                None
            },
            (Some(before), None) => Some(before.clone()),
            (None, _) => None,
        };
        self.insert(
            client_mac,
            ClientLease {
                ip: target_ip,
                expiry: now + duration,
                hostname: effective_hostname.clone(),
            },
        );
        Some(
            LeaseConfirmation {
                ip: target_ip,
                hostname: effective_hostname,
                old_hostname_to_deregister,
            },
        )
    }

    /// Holds an address that a neighbor was seen to use.
    pub fn update_from_neighbor(&mut self, mac: MacAddr, ip: Ipv4Addr, now: u64)
        requires
            old(self).wf(),
            now + NEIGHBOR_HOLD_DURATION <= u64::MAX,
        ensures
            final(self).wf(),
            final(self)@ == if old(self)@.neighbor_is_news(mac, ip, now) {
                old(self)@.with_lease(mac, ip, now + NEIGHBOR_HOLD_DURATION, None)
            } else {
                old(self)@
            },
    {
        if mac == MacAddr::zero() || mac == MacAddr::broadcast() {
            return;
        }
        let known: bool = match self.get(&mac, now) {
            Some(existing) => existing.ip == ip,
            None => false,
        };
        if known {
            return;
        }
        self.insert(
            mac,
            ClientLease { ip, expiry: now + NEIGHBOR_HOLD_DURATION, hostname: None },
        );
    }
}

/// A request to the table.
pub enum LeaseCommand {
    GetExistingIp { client_mac: MacAddr },
    AllocateCandidate { client_mac: MacAddr, net: Ipv4Net, server_ip: Ipv4Addr },
    ConfirmLease { client_mac: MacAddr, ip: Ipv4Addr, duration: u64, hostname: Option<String> },
    ValidateAndConfirmRequest {
        client_mac: MacAddr,
        requested_ip: Option<Ipv4Addr>,
        server_ip: Ipv4Addr,
        net: Ipv4Net,
        duration: u64,
        requested_hostname: Option<String>,
    },
    CheckConflict { target_ip: Ipv4Addr, client_mac: MacAddr },
    RecordConflict { ip: Ipv4Addr, duration: u64 },
    Release { client_mac: MacAddr },
    EvictExpired,
    AddNeighbor { mac: MacAddr, ip: Ipv4Addr },
}

/// The answer to a request.
pub enum LeaseReply {
    Ip(Option<Ipv4Addr>),
    Confirmation(Option<LeaseConfirmation>),
    Conflict(bool),
    Released(Option<(Ipv4Addr, Option<String>)>),
    Expired(Vec<String>),
    Done,
}

impl LeaseCommand {
    /// Whether the subnet of the request is one and its deadline can be
    /// written down.
    pub open spec fn wf(self, now: u64) -> bool {
        match self {
            LeaseCommand::AllocateCandidate { net, .. } => net.wf() && now
                + CANDIDATE_HOLD_DURATION <= u64::MAX,
            LeaseCommand::ConfirmLease { duration, .. } => now + duration <= u64::MAX,
            LeaseCommand::ValidateAndConfirmRequest { net, duration, .. } => net.wf() && now
                + duration <= u64::MAX,
            LeaseCommand::RecordConflict { duration, .. } => now + duration <= u64::MAX,
            LeaseCommand::AddNeighbor { .. } => now + NEIGHBOR_HOLD_DURATION <= u64::MAX,
            _ => true,
        }
    }
}

/// Whether `confirmation` is the answer to a request for an address, and
/// `after` the table that it leaves.
pub open spec fn confirms(
    before: LeaseTableState,
    after: LeaseTableState,
    client_mac: MacAddr,
    requested_ip: Option<Ipv4Addr>,
    server_ip: Ipv4Addr,
    net: Ipv4Net,
    duration: u64,
    requested_name: Option<Seq<char>>,
    now: u64,
    confirmation: Option<LeaseConfirmation>,
) -> bool {
    let target = before.target(client_mac, requested_ip, now);
    match confirmation {
        Some(c) => {
            let name = before.granted_name(client_mac, requested_name, now);
            &&& target == Some(c.ip)
            &&& before.may_have(client_mac, c.ip, server_ip, net, now)
            &&& name_of(c.hostname) == name
            &&& name_of(c.old_hostname_to_deregister) == name_given_up(
                before.name_held(client_mac),
                name,
            )
            &&& after == before.with_lease(client_mac, c.ip, now + duration, name)
        },
        None => {
            &&& !(target is Some && before.may_have(client_mac, target->0, server_ip, net, now))
            &&& after == before
        },
    }
}

/// Whether `reply` answers `cmd` on the table `before` at `now`, and `after`
/// is the table that the request leaves.
pub open spec fn answers(
    cmd: LeaseCommand,
    before: LeaseTableState,
    now: u64,
    reply: LeaseReply,
    after: LeaseTableState,
) -> bool {
    match cmd {
        LeaseCommand::GetExistingIp { client_mac } => {
            &&& reply == LeaseReply::Ip(before.target(client_mac, None, now))
            &&& after == before
        },
        LeaseCommand::AllocateCandidate { client_mac, net, server_ip } => {
            &&& reply matches LeaseReply::Ip(r)
            &&& before.evicted(now).is_first_available(net, server_ip, now, r)
            &&& after == match r {
                Some(ip) => before.evicted(now).with_lease(
                    client_mac,
                    ip,
                    now + CANDIDATE_HOLD_DURATION,
                    None,
                ),
                None => before.evicted(now),
            }
        },
        LeaseCommand::ConfirmLease { client_mac, ip, duration, hostname } => {
            &&& reply is Done
            &&& after == before.with_lease(client_mac, ip, now + duration, name_of(hostname))
        },
        LeaseCommand::ValidateAndConfirmRequest {
            client_mac,
            requested_ip,
            server_ip,
            net,
            duration,
            requested_hostname,
        } => {
            &&& reply matches LeaseReply::Confirmation(c)
            &&& confirms(
                before,
                after,
                client_mac,
                requested_ip,
                server_ip,
                net,
                duration,
                name_of(requested_hostname),
                now,
                c,
            )
        },
        LeaseCommand::CheckConflict { target_ip, client_mac } => {
            &&& reply == LeaseReply::Conflict(before.ip_taken_by_other(target_ip, client_mac, now))
            &&& after == before
        },
        LeaseCommand::RecordConflict { ip, duration } => {
            &&& reply is Done
            &&& after == before.with_conflict(ip, now + duration)
        },
        LeaseCommand::Release { client_mac } => {
            &&& reply matches LeaseReply::Released(released)
            &&& match released {
                Some((ip, hostname)) => before.holds(client_mac, ip) && name_of(hostname)
                    == before.leases[client_mac].hostname,
                None => !before.leases.contains_key(client_mac),
            }
            &&& after.leases == before.leases.remove(client_mac)
            &&& after.conflicts == before.conflicts
        },
        LeaseCommand::EvictExpired => {
            &&& reply matches LeaseReply::Expired(names)
            &&& lists_expired_hostnames(names@, before.leases, now)
            &&& after == before.evicted(now)
        },
        LeaseCommand::AddNeighbor { mac, ip } => {
            &&& reply is Done
            &&& after == if before.neighbor_is_news(mac, ip, now) {
                before.with_lease(mac, ip, now + NEIGHBOR_HOLD_DURATION, None)
            } else {
                before
            }
        },
    }
}

/// Carries a request out and answers it.
pub fn handle_lease_command(cmd: LeaseCommand, leases: &mut LeaseTable, now: u64) -> (r: LeaseReply)
    requires
        old(leases).wf(),
        cmd.wf(now),
    ensures
        final(leases).wf(),
        answers(cmd, old(leases)@, now, r, final(leases)@),
{
    match cmd {
        LeaseCommand::GetExistingIp { client_mac } => {
            match leases.get(&client_mac, now) {
                Some(lease) => LeaseReply::Ip(Some(lease.ip)),
                None => LeaseReply::Ip(None),
            }
        },
        LeaseCommand::AllocateCandidate { client_mac, net, server_ip } => {
            LeaseReply::Ip(leases.allocate_candidate(client_mac, net, server_ip, now))
        },
        LeaseCommand::ConfirmLease { client_mac, ip, duration, hostname } => {
            leases.insert(client_mac, ClientLease { ip, expiry: now + duration, hostname });
            LeaseReply::Done
        },
        LeaseCommand::ValidateAndConfirmRequest {
            client_mac,
            requested_ip,
            server_ip,
            net,
            duration,
            requested_hostname,
        } => {
            LeaseReply::Confirmation(
                leases.validate_and_confirm(
                    client_mac,
                    requested_ip,
                    server_ip,
                    net,
                    duration,
                    requested_hostname,
                    now,
                ),
            )
        },
        LeaseCommand::CheckConflict { target_ip, client_mac } => {
            LeaseReply::Conflict(leases.is_ip_taken_by_other(target_ip, client_mac, now))
        },
        LeaseCommand::RecordConflict { ip, duration } => {
            leases.record_conflict(ip, duration, now);
            LeaseReply::Done
        },
        LeaseCommand::Release { client_mac } => {
            match leases.remove(&client_mac) {
                Some(lease) => LeaseReply::Released(Some((lease.ip, lease.hostname))),
                None => LeaseReply::Released(None),
            }
        },
        LeaseCommand::EvictExpired => { LeaseReply::Expired(leases.evict_expired(now)) },
        LeaseCommand::AddNeighbor { mac, ip } => {
            leases.update_from_neighbor(mac, ip, now);
            LeaseReply::Done
        },
    }
}

/// A subnet has fewer host addresses than there are addresses.
proof fn lemma_host_count(net: Ipv4Net)
    requires
        net.wf(),
    ensures
        net.last_host() - net.first_host() < u32::MAX,
{
    if net.prefix_len == 31 {
        let a = net.addr.bits;
        assert((a & (0xffff_ffffu32 << 1u32)) + 1 >= (a | !(0xffff_ffffu32 << 1u32))) by (bit_vector);
    } else if net.prefix_len == 32 {
        let a = net.addr.bits;
        assert((a & (0xffff_ffffu32 << 0u32)) >= (a | !(0xffff_ffffu32 << 0u32))) by (bit_vector);
    }
}

/// An address is in the index if and only if a lease holds it.
pub proof fn law_index_matches_leases(table: LeaseTable, ip: Ipv4Addr)
    requires
        table.wf(),
    ensures
        table.indexed(ip) <==> exists|mac: MacAddr| #[trigger] table@.holds(mac, ip),
{
}

/// A candidate is a host address of the subnet, not that of the server, that
/// nobody had a live lease on and that no conflict hold covered. It is held for
/// the client that asked, for a while and under no name; the live leases of the
/// others stay as they were.
pub proof fn law_candidate_was_free(
    before: LeaseTableState,
    after: LeaseTableState,
    client_mac: MacAddr,
    net: Ipv4Net,
    server_ip: Ipv4Addr,
    now: u64,
    ip: Ipv4Addr,
)
    requires
        answers(
            LeaseCommand::AllocateCandidate { client_mac, net, server_ip },
            before,
            now,
            LeaseReply::Ip(Some(ip)),
            after,
        ),
    ensures
        net.has_host(ip),
        ip != server_ip,
        forall|mac: MacAddr| !#[trigger] before.leases_to(mac, ip, now),
        !before.in_conflict(ip, now),
        now + CANDIDATE_HOLD_DURATION <= u64::MAX ==> after.active(client_mac, now) == Some(
            LeaseView { ip, expiry: (now + CANDIDATE_HOLD_DURATION) as u64, hostname: None },
        ),
        forall|mac: MacAddr|
            mac != client_mac ==> #[trigger] after.active(mac, now) == before.active(mac, now),
{
    assert forall|mac: MacAddr| !#[trigger] before.leases_to(mac, ip, now) by {
        if before.leases_to(mac, ip, now) {
            assert(before.evicted(now).holds(mac, ip));
        }
    }
}

/// Where there is no candidate, every live lease stays as it was, and each host
/// address of the subnet but that of the server is leased to somebody or held
/// back.
pub proof fn law_no_candidate_changes_no_lease(
    before: LeaseTableState,
    after: LeaseTableState,
    client_mac: MacAddr,
    net: Ipv4Net,
    server_ip: Ipv4Addr,
    now: u64,
)
    requires
        answers(
            LeaseCommand::AllocateCandidate { client_mac, net, server_ip },
            before,
            now,
            LeaseReply::Ip(None),
            after,
        ),
    ensures
        forall|mac: MacAddr| #[trigger] after.active(mac, now) == before.active(mac, now),
        forall|ip: Ipv4Addr| #[trigger]
            net.has_host(ip) && ip != server_ip ==> before.in_conflict(ip, now) || exists|
                mac: MacAddr,
            | #[trigger] before.leases_to(mac, ip, now),
{
    let kept = before.evicted(now);
    assert forall|ip: Ipv4Addr| #[trigger] net.has_host(ip) && ip != server_ip implies before.in_conflict(
        ip,
        now,
    ) || exists|mac: MacAddr| #[trigger] before.leases_to(mac, ip, now) by {
        assert(!kept.available(ip, now));
        if !before.in_conflict(ip, now) {
            let mac = choose|mac: MacAddr| #[trigger] kept.holds(mac, ip);
            assert(before.leases_to(mac, ip, now));
        }
    }
}

/// Where two host addresses of the subnet are free, two requests for a candidate
/// are both answered with one, in whichever order they are taken up, and with
/// different ones while the first is held; neither is that of the server.
pub proof fn law_two_requests_get_two_candidates(
    s0: LeaseTableState,
    s1: LeaseTableState,
    s2: LeaseTableState,
    first_mac: MacAddr,
    second_mac: MacAddr,
    net: Ipv4Net,
    server_ip: Ipv4Addr,
    first_now: u64,
    second_now: u64,
    first: Option<Ipv4Addr>,
    second: Option<Ipv4Addr>,
    one: Ipv4Addr,
    another: Ipv4Addr,
)
    requires
        one != another,
        net.has_host(one) && one != server_ip && s0.available(one, first_now),
        net.has_host(another) && another != server_ip && s0.available(another, first_now),
        answers(
            LeaseCommand::AllocateCandidate { client_mac: first_mac, net, server_ip },
            s0,
            first_now,
            LeaseReply::Ip(first),
            s1,
        ),
        answers(
            LeaseCommand::AllocateCandidate { client_mac: second_mac, net, server_ip },
            s1,
            second_now,
            LeaseReply::Ip(second),
            s2,
        ),
        first_now <= second_now < first_now + CANDIDATE_HOLD_DURATION <= u64::MAX,
    ensures
        first is Some,
        second is Some,
        first != second,
        first != Some(server_ip),
        second != Some(server_ip),
{
    lemma_available_when_evicted(s0, one, first_now);
    lemma_available_when_evicted(s0, another, first_now);
    let ip = first->0;
    let free = if ip == one {
        another
    } else {
        one
    };
    assert forall|mac: MacAddr| !#[trigger] s1.holds(mac, free) by {
        if s1.holds(mac, free) {
            assert(s0.holds(mac, free));
        }
    }
    assert(s1.available(free, second_now));
    lemma_available_when_evicted(s1, free, second_now);
    law_candidates_differ(
        s0,
        s1,
        s2,
        first_mac,
        second_mac,
        net,
        server_ip,
        first_now,
        second_now,
        ip,
        second->0,
    );
}

proof fn lemma_available_when_evicted(state: LeaseTableState, ip: Ipv4Addr, now: u64)
    requires
        state.available(ip, now),
    ensures
        state.evicted(now).available(ip, now),
{
    assert forall|mac: MacAddr| !#[trigger] state.evicted(now).holds(mac, ip) by {
        if state.evicted(now).holds(mac, ip) {
            assert(state.holds(mac, ip));
        }
    }
}

/// Two clients that are offered addresses while the first offer stands are
/// offered different ones.
pub proof fn law_candidates_differ(
    s0: LeaseTableState,
    s1: LeaseTableState,
    s2: LeaseTableState,
    first_mac: MacAddr,
    second_mac: MacAddr,
    net: Ipv4Net,
    server_ip: Ipv4Addr,
    first_now: u64,
    second_now: u64,
    first_ip: Ipv4Addr,
    second_ip: Ipv4Addr,
)
    requires
        answers(
            LeaseCommand::AllocateCandidate { client_mac: first_mac, net, server_ip },
            s0,
            first_now,
            LeaseReply::Ip(Some(first_ip)),
            s1,
        ),
        answers(
            LeaseCommand::AllocateCandidate { client_mac: second_mac, net, server_ip },
            s1,
            second_now,
            LeaseReply::Ip(Some(second_ip)),
            s2,
        ),
        first_now <= second_now < first_now + CANDIDATE_HOLD_DURATION <= u64::MAX,
    ensures
        first_ip != second_ip,
{
    assert(s1.evicted(second_now).holds(first_mac, first_ip));
}

/// A client whose request was confirmed is confirmed again when it asks for the
/// same address at any later time, or for none while its lease runs, as long as
/// nobody else changes the table.
pub proof fn law_confirmed_client_may_renew(
    before: LeaseTableState,
    after: LeaseTableState,
    client_mac: MacAddr,
    requested_ip: Option<Ipv4Addr>,
    server_ip: Ipv4Addr,
    net: Ipv4Net,
    duration: u64,
    name: Option<Seq<char>>,
    now: u64,
    c: LeaseConfirmation,
    later: u64,
)
    requires
        confirms(
            before,
            after,
            client_mac,
            requested_ip,
            server_ip,
            net,
            duration,
            name,
            now,
            Some(c),
        ),
        now <= later,
    ensures
        later < now + duration <= u64::MAX ==> after.target(client_mac, None, later) == Some(c.ip),
        after.may_have(client_mac, c.ip, server_ip, net, later),
{
    assert forall|other: MacAddr| other != client_mac implies !#[trigger] after.leases_to(
        other,
        c.ip,
        later,
    ) by {
        if after.leases_to(other, c.ip, later) {
            assert(before.leases_to(other, c.ip, now));
        }
    }
}

/// Until a confirmed lease runs out, no other client is confirmed on its
/// address and none is granted its hostname.
pub proof fn law_confirmed_lease_excludes_others(
    before: LeaseTableState,
    after: LeaseTableState,
    client_mac: MacAddr,
    requested_ip: Option<Ipv4Addr>,
    server_ip: Ipv4Addr,
    net: Ipv4Net,
    duration: u64,
    name: Option<Seq<char>>,
    now: u64,
    c: LeaseConfirmation,
    other: MacAddr,
    later: u64,
)
    requires
        confirms(
            before,
            after,
            client_mac,
            requested_ip,
            server_ip,
            net,
            duration,
            name,
            now,
            Some(c),
        ),
        other != client_mac,
        later < now + duration <= u64::MAX,
    ensures
        !after.may_have(other, c.ip, server_ip, net, later),
        c.hostname is Some ==> after.granted_name(other, name_of(c.hostname), later) is None,
{
    assert(after.leases_to(client_mac, c.ip, later));
}

/// A released address that no other client holds is available again, unless a
/// conflict hold covers it.
pub proof fn law_release_frees_address(
    before: LeaseTableState,
    after: LeaseTableState,
    client_mac: MacAddr,
    ip: Ipv4Addr,
    reply: LeaseReply,
    now: u64,
)
    requires
        answers(LeaseCommand::Release { client_mac }, before, now, reply, after),
        before.holds(client_mac, ip),
        forall|other: MacAddr| #[trigger] before.holds(other, ip) ==> other == client_mac,
    ensures
        !after.leases.contains_key(client_mac),
        after.available(ip, now) <==> !before.in_conflict(ip, now),
{
    assert forall|mac: MacAddr| !#[trigger] after.holds(mac, ip) by {
        if after.holds(mac, ip) {
            assert(before.holds(mac, ip));
        }
    }
}

/// While a conflict hold stands, its address is never offered, whatever other
/// holds there are.
pub proof fn law_conflict_hold_blocks_offer(
    s0: LeaseTableState,
    s1: LeaseTableState,
    s2: LeaseTableState,
    ip: Ipv4Addr,
    duration: u64,
    now: u64,
    client_mac: MacAddr,
    net: Ipv4Net,
    server_ip: Ipv4Addr,
    later: u64,
    offered: Option<Ipv4Addr>,
)
    requires
        answers(LeaseCommand::RecordConflict { ip, duration }, s0, now, LeaseReply::Done, s1),
        answers(
            LeaseCommand::AllocateCandidate { client_mac, net, server_ip },
            s1,
            later,
            LeaseReply::Ip(offered),
            s2,
        ),
        later < now + duration <= u64::MAX,
    ensures
        offered != Some(ip),
        forall|held: Ipv4Addr| #[trigger] s0.in_conflict(held, later) ==> offered != Some(held),
{
    assert(s1.evicted(later).in_conflict(ip, later));
    assert forall|held: Ipv4Addr| #[trigger] s0.in_conflict(held, later) implies offered != Some(
        held,
    ) by {
        assert(s1.evicted(later).in_conflict(held, later));
    }
}

/// No two clients have a live lease on the same address.
pub open spec fn exclusive(state: LeaseTableState, now: u64) -> bool {
    forall|a: MacAddr, b: MacAddr, ip: Ipv4Addr|
        #[trigger] state.leases_to(a, ip, now) && #[trigger] state.leases_to(b, ip, now) ==> a == b
}

/// Whether a request records an address for a client without asking who has it,
/// a direct confirmation or a neighbor seen on the network, while another client
/// has a live lease on it.
pub open spec fn records_taken_address(
    cmd: LeaseCommand,
    before: LeaseTableState,
    now: u64,
) -> bool {
    match cmd {
        LeaseCommand::ConfirmLease { client_mac, ip, .. } => before.ip_taken_by_other(
            ip,
            client_mac,
            now,
        ),
        LeaseCommand::AddNeighbor { mac, ip } => before.ip_taken_by_other(ip, mac, now),
        _ => false,
    }
}

/// Where no two clients have a live lease on the same address, no request
/// changes that but one that records an address that another client has.
pub proof fn law_addresses_stay_exclusive(
    cmd: LeaseCommand,
    before: LeaseTableState,
    now: u64,
    reply: LeaseReply,
    after: LeaseTableState,
    later: u64,
)
    requires
        exclusive(before, now),
        now <= later,
        cmd.wf(now),
        answers(cmd, before, now, reply, after),
        !records_taken_address(cmd, before, now),
    ensures
        exclusive(after, later),
{
    assert forall|a: MacAddr, b: MacAddr, ip: Ipv4Addr|
        #[trigger] after.leases_to(a, ip, later) && #[trigger] after.leases_to(
            b,
            ip,
            later,
        ) implies a == b by {
        let kept = before.evicted(now);
        if after.leases.contains_key(a) && before.leases.contains_key(a) && after.leases[a]
            == before.leases[a] {
            assert(before.leases_to(a, ip, now));
            assert(kept.holds(a, ip));
        }
        if after.leases.contains_key(b) && before.leases.contains_key(b) && after.leases[b]
            == before.leases[b] {
            assert(before.leases_to(b, ip, now));
            assert(kept.holds(b, ip));
        }
    }
}

/// Whether `mac` has a live lease under `name`.
pub open spec fn named(state: LeaseTableState, mac: MacAddr, name: Seq<char>, now: u64) -> bool {
    state.leases.contains_key(mac) && state.leases[mac].expiry > now && state.leases[mac].hostname
        == Some(name)
}

/// No two clients have a live lease under the same hostname.
pub open spec fn names_exclusive(state: LeaseTableState, now: u64) -> bool {
    forall|a: MacAddr, b: MacAddr, name: Seq<char>|
        #[trigger] named(state, a, name, now) && #[trigger] named(state, b, name, now) ==> a == b
}

/// Where no two clients have a live lease under the same hostname, none have
/// after a request for an address was answered, whatever the answer.
pub proof fn law_hostnames_stay_exclusive(
    before: LeaseTableState,
    after: LeaseTableState,
    client_mac: MacAddr,
    requested_ip: Option<Ipv4Addr>,
    server_ip: Ipv4Addr,
    net: Ipv4Net,
    duration: u64,
    name: Option<Seq<char>>,
    now: u64,
    confirmation: Option<LeaseConfirmation>,
    later: u64,
)
    requires
        names_exclusive(before, now),
        now <= later,
        confirms(
            before,
            after,
            client_mac,
            requested_ip,
            server_ip,
            net,
            duration,
            name,
            now,
            confirmation,
        ),
    ensures
        names_exclusive(after, later),
{
    assert forall|a: MacAddr, b: MacAddr, n: Seq<char>|
        #[trigger] named(after, a, n, later) && #[trigger] named(after, b, n, later) implies a
        == b by {
        if confirmation is None || a != client_mac {
            assert(named(before, a, n, now));
        }
        if confirmation is None || b != client_mac {
            assert(named(before, b, n, now));
        }
    }
}

/// Where no two clients have a live lease on the same address, none have after a
/// request for an address was answered, whatever the answer.
pub proof fn law_confirmation_keeps_addresses_exclusive(
    before: LeaseTableState,
    after: LeaseTableState,
    client_mac: MacAddr,
    requested_ip: Option<Ipv4Addr>,
    server_ip: Ipv4Addr,
    net: Ipv4Net,
    duration: u64,
    name: Option<Seq<char>>,
    now: u64,
    confirmation: Option<LeaseConfirmation>,
    later: u64,
)
    requires
        exclusive(before, now),
        now <= later,
        confirms(
            before,
            after,
            client_mac,
            requested_ip,
            server_ip,
            net,
            duration,
            name,
            now,
            confirmation,
        ),
    ensures
        exclusive(after, later),
{
    assert forall|a: MacAddr, b: MacAddr, ip: Ipv4Addr|
        #[trigger] after.leases_to(a, ip, later) && #[trigger] after.leases_to(
            b,
            ip,
            later,
        ) implies a == b by {
        if confirmation is None || a != client_mac {
            assert(before.leases_to(a, ip, now));
        }
        if confirmation is None || b != client_mac {
            assert(before.leases_to(b, ip, now));
        }
    }
}

/// Where no two clients have a live lease under the same hostname, no command
/// changes that but a direct confirmation under a hostname that another client
/// has.
pub proof fn law_commands_keep_hostnames_exclusive(
    cmd: LeaseCommand,
    before: LeaseTableState,
    now: u64,
    reply: LeaseReply,
    after: LeaseTableState,
    later: u64,
)
    requires
        names_exclusive(before, now),
        now <= later,
        answers(cmd, before, now, reply, after),
        cmd matches LeaseCommand::ConfirmLease { client_mac, hostname: Some(name), .. }
            ==> !before.hostname_taken_by_other(name@, client_mac, now),
    ensures
        names_exclusive(after, later),
{
    assert forall|a: MacAddr, b: MacAddr, n: Seq<char>|
        #[trigger] named(after, a, n, later) && #[trigger] named(after, b, n, later) implies a
        == b by {
        if before.leases.contains_key(a) && after.leases[a] == before.leases[a] {
            assert(named(before, a, n, now));
        }
        if before.leases.contains_key(b) && after.leases[b] == before.leases[b] {
            assert(named(before, b, n, now));
        }
    }
}

/// Eviction leaves nothing that has run out, and keeps every lease and hold
/// that has not.
pub proof fn law_eviction_is_exact(state: LeaseTableState, now: u64)
    ensures
        forall|mac: MacAddr| #[trigger]
            state.evicted(now).leases.contains_key(mac) <==> state.leases.contains_key(mac)
                && state.leases[mac].expiry > now,
        forall|mac: MacAddr, ip: Ipv4Addr| #[trigger]
            state.evicted(now).leases_to(mac, ip, now) <==> state.leases_to(mac, ip, now),
        forall|ip: Ipv4Addr| #[trigger]
            state.evicted(now).in_conflict(ip, now) <==> state.in_conflict(ip, now),
        state.evicted(now).evicted(now) == state.evicted(now),
{
    assert(state.evicted(now).evicted(now) =~= state.evicted(now));
}

} // verus!
