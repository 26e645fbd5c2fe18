//! What the table of leases does for the clients on the LAN, told of what goes
//! into its functions and what comes out.

use crate::addr::{Ipv4Addr, Ipv4Net, MacAddr};
use crate::lease_table::{
    confirms, handle_lease_command, hostnames_of, ClientLease, LeaseCommand, LeaseConfirmation,
    LeaseReply, LeaseTable, LeaseTableState, LeaseView,
};
use crate::wan_laws::{agree, leading_ones};
use vstd::prelude::*;

verus! {

/// Whether the lease of a client runs past `now`.
pub open spec fn runs(table: LeaseTableState, mac: MacAddr, now: u64) -> bool {
    table.leases.contains_key(mac) && table.leases[mac].expiry > now
}

/// Whether a client has an address at `now`.
pub open spec fn has_address(table: LeaseTableState, mac: MacAddr, ip: Ipv4Addr, now: u64) -> bool {
    runs(table, mac, now) && table.leases[mac].ip == ip
}

/// Whether a client other than `mac` has an address at `now`.
pub open spec fn others_have(
    table: LeaseTableState,
    mac: MacAddr,
    ip: Ipv4Addr,
    now: u64,
) -> bool {
    exists|other: MacAddr| other != mac && #[trigger] has_address(table, other, ip, now)
}

/// Whether a client other than `mac` goes by a name at `now`.
pub open spec fn others_go_by(
    table: LeaseTableState,
    mac: MacAddr,
    name: Seq<char>,
    now: u64,
) -> bool {
    exists|other: MacAddr|
        other != mac && #[trigger] runs(table, other, now) && table.leases[other].hostname == Some(
            name,
        )
}

/// Whether an address is held back at `now` because it was found in use.
pub open spec fn is_held_back(table: LeaseTableState, ip: Ipv4Addr, now: u64) -> bool {
    table.conflicts.contains_key(ip) && table.conflicts[ip] > now
}

/// Whether an address can be given to somebody at `now`: nobody has it, and it
/// is not held back.
pub open spec fn is_free(table: LeaseTableState, ip: Ipv4Addr, now: u64) -> bool {
    &&& forall|mac: MacAddr| !#[trigger] has_address(table, mac, ip, now)
    &&& !is_held_back(table, ip, now)
}

/// Whether an address lies in a subnet, between its lowest and its highest.
pub open spec fn is_inner(net: Ipv4Net, ip: Ipv4Addr) -> bool {
    let mask = leading_ones(net.prefix_len);
    &&& agree(ip, net.addr, mask)
    &&& ip.bits & !mask != 0
    &&& ip.bits | mask != 0xffff_ffff
}

/// Whether an address may be that of a host of a subnet: all addresses of a
/// subnet of one or two, and the inner ones of any other.
pub open spec fn is_host(net: Ipv4Net, ip: Ipv4Addr) -> bool {
    if net.prefix_len >= 31 {
        agree(ip, net.addr, leading_ones(net.prefix_len))
    } else {
        is_inner(net, ip)
    }
}

/// Whether the leases of all clients but one are as they were.
pub open spec fn others_stay(before: LeaseTableState, after: LeaseTableState, mac: MacAddr) -> bool {
    forall|other: MacAddr|
        other != mac ==> (#[trigger] after.leases.contains_key(other)
            <==> before.leases.contains_key(other)) && (before.leases.contains_key(other)
            ==> after.leases[other] == before.leases[other])
}

/// Whether the leases that run past `now`, of all clients but one, are as they
/// were.
pub open spec fn other_live_leases_stay(
    before: LeaseTableState,
    after: LeaseTableState,
    mac: MacAddr,
    now: u64,
) -> bool {
    forall|other: MacAddr|
        other != mac ==> (#[trigger] runs(after, other, now) <==> runs(before, other, now)) && (
        runs(before, other, now) ==> after.leases[other] == before.leases[other])
}

/// The characters of a name, where there is one.
pub open spec fn letters(name: Option<String>) -> Option<Seq<char>> {
    match name {
        Some(text) => Some(text@),
        None => None,
    }
}

proof fn lemma_inner(net: Ipv4Net, ip: Ipv4Addr)
    requires
        net.prefix_len <= 32,
    ensures
        (net.first() < ip.bits < net.last()) == is_inner(net, ip),
        (net.first() <= ip.bits <= net.last()) == agree(
            ip,
            net.addr,
            leading_ones(net.prefix_len),
        ),
{
    let (a, x, k) = (net.addr.bits, ip.bits, (32 - net.prefix_len) as u32);
    assert(k <= 31 ==> {
        let m = 0xffff_ffffu32 << k;
        ((a & m) < x && x < (a | !m) <==> (x & m) == (a & m) && x & !m != 0 && (x | m)
            != 0xffff_ffff) && ((a & m) <= x && x <= (a | !m) <==> (x & m) == (a & m))
    }) by (bit_vector);
    assert(a & 0 == 0 && x & 0 == 0 && (a | !0u32) == 0xffff_ffff && x & !0u32 == x && x | 0 == x)
        by (bit_vector);
}

proof fn lemma_host(net: Ipv4Net, ip: Ipv4Addr)
    requires
        net.prefix_len <= 32,
    ensures
        net.has_host(ip) == is_host(net, ip),
{
    lemma_inner(net, ip);
}

proof fn lemma_taken(table: LeaseTableState, ip: Ipv4Addr, mac: MacAddr, now: u64)
    ensures
        table.ip_taken_by_other(ip, mac, now) == others_have(table, mac, ip, now),
{
    if table.ip_taken_by_other(ip, mac, now) {
        let other = choose|other: MacAddr| other != mac && #[trigger] table.leases_to(other, ip, now);
        assert(has_address(table, other, ip, now));
    }
    if others_have(table, mac, ip, now) {
        let other = choose|other: MacAddr|
            other != mac && #[trigger] has_address(table, other, ip, now);
        assert(table.leases_to(other, ip, now));
    }
}

proof fn lemma_name_taken(table: LeaseTableState, name: Seq<char>, mac: MacAddr, now: u64)
    ensures
        table.hostname_taken_by_other(name, mac, now) == others_go_by(table, mac, name, now),
{
    if table.hostname_taken_by_other(name, mac, now) {
        let other = choose|other: MacAddr|
            other != mac && #[trigger] table.leases.contains_key(other)
                && table.leases[other].expiry > now && table.leases[other].hostname == Some(name);
        assert(runs(table, other, now));
    }
}

proof fn lemma_free(table: LeaseTableState, ip: Ipv4Addr, now: u64)
    ensures
        table.evicted(now).available(ip, now) == is_free(table, ip, now),
{
    let kept = table.evicted(now);
    if kept.available(ip, now) {
        assert forall|mac: MacAddr| !#[trigger] has_address(table, mac, ip, now) by {
            if has_address(table, mac, ip, now) {
                assert(kept.holds(mac, ip));
            }
        }
    }
    if is_free(table, ip, now) {
        assert forall|mac: MacAddr| !#[trigger] kept.holds(mac, ip) by {
            if kept.holds(mac, ip) {
                assert(has_address(table, mac, ip, now));
            }
        }
    }
}

/// Whether `r` is the lowest address of a subnet that can be given to somebody,
/// leaving that of the server out.
pub open spec fn is_lowest_free(
    table: LeaseTableState,
    net: Ipv4Net,
    server_ip: Ipv4Addr,
    now: u64,
    r: Option<Ipv4Addr>,
) -> bool {
    match r {
        Some(ip) => {
            &&& is_host(net, ip)
            &&& ip != server_ip
            &&& is_free(table, ip, now)
            &&& forall|lower: Ipv4Addr|
                is_host(net, lower) && lower.bits < ip.bits && lower != server_ip
                    ==> !#[trigger] is_free(table, lower, now)
        },
        None => forall|ip: Ipv4Addr|
            is_host(net, ip) && ip != server_ip ==> !#[trigger] is_free(table, ip, now),
    }
}

/// What is found first is the lowest address that can be given to somebody.
pub proof fn lemma_lowest_free(
    table: LeaseTableState,
    net: Ipv4Net,
    server_ip: Ipv4Addr,
    now: u64,
    r: Option<Ipv4Addr>,
)
    requires
        net.prefix_len <= 32,
        table.evicted(now).is_first_available(net, server_ip, now, r),
    ensures
        is_lowest_free(table, net, server_ip, now, r),
{
    let kept = table.evicted(now);
    match r {
        Some(ip) => {
            lemma_host(net, ip);
            lemma_free(table, ip, now);
            assert forall|lower: Ipv4Addr|
                is_host(net, lower) && lower.bits < ip.bits && lower
                    != server_ip implies !#[trigger] is_free(table, lower, now) by {
                lemma_host(net, lower);
                lemma_free(table, lower, now);
                assert(!kept.available(lower, now));
            }
        },
        None => {
            assert forall|ip: Ipv4Addr|
                is_host(net, ip) && ip != server_ip implies !#[trigger] is_free(table, ip, now) by {
                lemma_host(net, ip);
                lemma_free(table, ip, now);
                assert(!kept.available(ip, now));
            }
        },
    }
}

/// A client that needs an address is given the lowest that nobody has and that is
/// not held back, for ten seconds and under no name; the others keep theirs. It
/// is given none only where there is none.
pub proof fn law_lowest_free_address_is_held(
    leases: &mut LeaseTable,
    client_mac: MacAddr,
    net: Ipv4Net,
    server_ip: Ipv4Addr,
    now: u64,
    r: Option<Ipv4Addr>,
)
    requires
        call_ensures(
            LeaseTable::allocate_candidate,
            (leases, client_mac, net, server_ip, now),
            r,
        ),
        net.prefix_len <= 32,
        now + 10_000_000_000 <= u64::MAX,
    ensures
        is_lowest_free(old(leases)@, net, server_ip, now, r),
        r matches Some(ip) ==> final(leases)@.leases.contains_key(client_mac)
            && final(leases)@.leases[client_mac] == (LeaseView {
            ip,
            expiry: (now + 10_000_000_000) as u64,
            hostname: None,
        }),
        other_live_leases_stay(old(leases)@, final(leases)@, client_mac, now),
        r is None ==> (runs(final(leases)@, client_mac, now) <==> runs(
            old(leases)@,
            client_mac,
            now,
        )),
{
    lemma_lowest_free(old(leases)@, net, server_ip, now, r);
}

/// The next address to be given is the lowest that nobody has and that is not
/// held back.
pub proof fn law_next_address_is_the_lowest_free(
    leases: &mut LeaseTable,
    net: Ipv4Net,
    server_ip: Ipv4Addr,
    now: u64,
    r: Option<Ipv4Addr>,
)
    requires
        call_ensures(LeaseTable::next_available_ip, (leases, net, server_ip, now), r),
        net.prefix_len <= 32,
    ensures
        is_lowest_free(old(leases)@, net, server_ip, now, r),
        forall|mac: MacAddr| #[trigger]
            final(leases)@.leases.contains_key(mac) <==> runs(old(leases)@, mac, now),
        forall|mac: MacAddr| #[trigger]
            final(leases)@.leases.contains_key(mac) ==> final(leases)@.leases[mac]
                == old(leases)@.leases[mac],
{
    lemma_lowest_free(old(leases)@, net, server_ip, now, r);
}

/// Whether `after` is the table once a client was confirmed on `ip` for
/// `duration`, as `c` says. It goes by the name it asked for, unless somebody
/// else does; the name that it went by before, if another, is given up.
pub open spec fn is_confirmed(
    before: LeaseTableState,
    after: LeaseTableState,
    mac: MacAddr,
    ip: Ipv4Addr,
    duration: u64,
    name: Option<Seq<char>>,
    now: u64,
    c: LeaseConfirmation,
) -> bool {
    let granted = if name is Some && others_go_by(before, mac, name->0, now) {
        None
    } else {
        name
    };
    let had = if before.leases.contains_key(mac) {
        before.leases[mac].hostname
    } else {
        None
    };
    &&& c.ip == ip
    &&& letters(c.hostname) == granted
    &&& letters(c.old_hostname_to_deregister) == (if had == granted {
        None
    } else {
        had
    })
    &&& after.leases.contains_key(mac)
    &&& after.leases[mac] == (LeaseView {
        ip,
        expiry: (now + duration) as u64,
        hostname: granted,
    })
    &&& others_stay(before, after, mac)
    &&& after.conflicts == before.conflicts
}

/// Whether a client may have an address: it lies inside the subnet, is not that
/// of the server, and nobody else has it.
pub open spec fn may_be_given(
    table: LeaseTableState,
    mac: MacAddr,
    ip: Ipv4Addr,
    server_ip: Ipv4Addr,
    net: Ipv4Net,
    now: u64,
) -> bool {
    is_inner(net, ip) && ip != server_ip && !others_have(table, mac, ip, now)
}

/// What an answer to a request for an address means.
pub proof fn lemma_confirmed(
    before: LeaseTableState,
    after: LeaseTableState,
    mac: MacAddr,
    requested_ip: Option<Ipv4Addr>,
    server_ip: Ipv4Addr,
    net: Ipv4Net,
    duration: u64,
    name: Option<Seq<char>>,
    now: u64,
    r: Option<LeaseConfirmation>,
    ip: Ipv4Addr,
)
    requires
        confirms(
            before,
            after,
            mac,
            requested_ip,
            server_ip,
            net,
            duration,
            name,
            now,
            r,
        ),
        net.prefix_len <= 32,
        requested_ip == Some(ip) || requested_ip is None && has_address(before, mac, ip, now),
    ensures
        may_be_given(before, mac, ip, server_ip, net, now) ==> (r matches Some(c) && is_confirmed(
            before,
            after,
            mac,
            ip,
            duration,
            name,
            now,
            c,
        )),
        !may_be_given(before, mac, ip, server_ip, net, now) ==> r is None && after == before,
{
    lemma_inner(net, ip);
    lemma_taken(before, ip, mac, now);
    if let Some(n) = name {
        lemma_name_taken(before, n, mac, now);
    }
}

/// A client is confirmed on the address that it asks for, or on the one that it
/// has where it asks for none, exactly where it may have that address; the lease
/// then runs for the given time. Otherwise it is refused, and nothing changes.
pub proof fn law_request_is_confirmed_where_it_may_be(
    leases: &mut LeaseTable,
    mac: MacAddr,
    requested_ip: Option<Ipv4Addr>,
    server_ip: Ipv4Addr,
    net: Ipv4Net,
    duration: u64,
    name: Option<String>,
    now: u64,
    r: Option<LeaseConfirmation>,
    ip: Ipv4Addr,
)
    requires
        call_ensures(
            LeaseTable::validate_and_confirm,
            (leases, mac, requested_ip, server_ip, net, duration, name, now),
            r,
        ),
        net.prefix_len <= 32,
        requested_ip == Some(ip) || requested_ip is None && has_address(
            old(leases)@,
            mac,
            ip,
            now,
        ),
    ensures
        may_be_given(old(leases)@, mac, ip, server_ip, net, now) ==> (r matches Some(c)
            && is_confirmed(
            old(leases)@,
            final(leases)@,
            mac,
            ip,
            duration,
            letters(name),
            now,
            c,
        )),
        !may_be_given(old(leases)@, mac, ip, server_ip, net, now) ==> r is None && final(leases)@
            == old(leases)@,
{
    lemma_confirmed(
        old(leases)@,
        final(leases)@,
        mac,
        requested_ip,
        server_ip,
        net,
        duration,
        letters(name),
        now,
        r,
        ip,
    );
}

/// A client that asks for no address and has none is refused.
pub proof fn law_request_for_nothing_is_refused(
    leases: &mut LeaseTable,
    mac: MacAddr,
    server_ip: Ipv4Addr,
    net: Ipv4Net,
    duration: u64,
    name: Option<String>,
    now: u64,
    r: Option<LeaseConfirmation>,
)
    requires
        call_ensures(
            LeaseTable::validate_and_confirm,
            (leases, mac, None, server_ip, net, duration, name, now),
            r,
        ),
        !runs(old(leases)@, mac, now),
    ensures
        r is None,
        final(leases)@ == old(leases)@,
{
}

/// What the table says about itself: who has an address, who goes by a name, and
/// what is held back.
pub proof fn law_table_tells_who_has_what(
    leases: LeaseTable,
    mac: MacAddr,
    ip: Ipv4Addr,
    name: String,
    now: u64,
    taken: bool,
    named: bool,
    held: bool,
    found: Option<MacAddr>,
)
    requires
        call_ensures(LeaseTable::is_ip_taken_by_other, (&leases, ip, mac, now), taken),
        call_ensures(LeaseTable::is_hostname_taken_by_other, (&leases, &name, mac, now), named),
        call_ensures(LeaseTable::is_conflict_active, (&leases, ip, now), held),
        call_ensures(LeaseTable::get_mac_by_ip, (&leases, ip, now), found),
    ensures
        taken == others_have(leases@, mac, ip, now),
        named == others_go_by(leases@, mac, name@, now),
        held == is_held_back(leases@, ip, now),
        match found {
            Some(holder) => has_address(leases@, holder, ip, now),
            None => forall|holder: MacAddr| !#[trigger] has_address(leases@, holder, ip, now),
        },
{
    lemma_taken(leases@, ip, mac, now);
    lemma_name_taken(leases@, name@, mac, now);
    if found is None {
        assert forall|holder: MacAddr| !#[trigger] has_address(leases@, holder, ip, now) by {
            assert(!leases@.leases_to(holder, ip, now));
        }
    }
}

/// A client has the lease that it was given until it runs out.
pub proof fn law_active_lease_is_the_one_that_runs(
    leases: LeaseTable,
    mac: MacAddr,
    now: u64,
    r: Option<&ClientLease>,
)
    requires
        call_ensures(LeaseTable::get, (&leases, &mac, now), r),
    ensures
        r is Some <==> runs(leases@, mac, now),
        r matches Some(lease) ==> lease.ip == leases@.leases[mac].ip && lease.expiry
            == leases@.leases[mac].expiry && letters(lease.hostname)
            == leases@.leases[mac].hostname,
{
}

/// An address can be given to somebody only where no lease names it, expired or
/// not, and it is not held back.
pub proof fn law_available_address_is_in_no_lease(
    leases: LeaseTable,
    ip: Ipv4Addr,
    now: u64,
    r: bool,
)
    requires
        call_ensures(LeaseTable::is_ip_available, (&leases, ip, now), r),
    ensures
        r <==> !is_held_back(leases@, ip, now) && forall|mac: MacAddr| #[trigger]
            leases@.leases.contains_key(mac) ==> leases@.leases[mac].ip != ip,
{
    let table = leases@;
    if r {
        assert forall|mac: MacAddr| #[trigger]
            table.leases.contains_key(mac) implies table.leases[mac].ip != ip by {
            assert(!table.holds(mac, ip));
        }
    } else if !is_held_back(table, ip, now) {
        let mac = choose|mac: MacAddr| #[trigger] table.holds(mac, ip);
        assert(table.leases.contains_key(mac));
    }
}

/// A lease that is given replaces the one of the same client and no other; one
/// that is taken away leaves the others.
pub proof fn law_leases_come_and_go_one_by_one(
    given: &mut LeaseTable,
    taken: &mut LeaseTable,
    mac: MacAddr,
    lease: ClientLease,
    r: (),
    removed: Option<ClientLease>,
)
    requires
        call_ensures(LeaseTable::insert, (given, mac, lease), r),
        call_ensures(LeaseTable::remove, (taken, &mac), removed),
    ensures
        final(given)@.leases.contains_key(mac),
        final(given)@.leases[mac].ip == lease.ip,
        final(given)@.leases[mac].expiry == lease.expiry,
        final(given)@.leases[mac].hostname == letters(lease.hostname),
        others_stay(old(given)@, final(given)@, mac),
        final(given)@.conflicts == old(given)@.conflicts,
        !final(taken)@.leases.contains_key(mac),
        others_stay(old(taken)@, final(taken)@, mac),
        final(taken)@.conflicts == old(taken)@.conflicts,
        removed is Some <==> old(taken)@.leases.contains_key(mac),
        removed matches Some(gone) ==> gone.ip == old(taken)@.leases[mac].ip && gone.expiry
            == old(taken)@.leases[mac].expiry && letters(gone.hostname)
            == old(taken)@.leases[mac].hostname,
{
}

/// An address found in conflict is held back for the given time, and no other
/// address is held back or freed by that.
pub proof fn law_conflict_holds_an_address_back(
    leases: &mut LeaseTable,
    ip: Ipv4Addr,
    duration: u64,
    now: u64,
    r: (),
    later: u64,
    other: Ipv4Addr,
)
    requires
        call_ensures(LeaseTable::record_conflict, (leases, ip, duration, now), r),
        now + duration <= u64::MAX,
    ensures
        is_held_back(final(leases)@, ip, later) <==> later < now + duration,
        other != ip ==> is_held_back(final(leases)@, other, later) == is_held_back(
            old(leases)@,
            other,
            later,
        ),
        final(leases)@.leases == old(leases)@.leases,
{
}

/// A neighbor with a hardware address of its own is taken to have the address at
/// which it is seen for five minutes, unless it has a lease on that address; the
/// others keep theirs.
pub proof fn law_neighbors_keep_their_addresses(
    leases: &mut LeaseTable,
    mac: MacAddr,
    ip: Ipv4Addr,
    now: u64,
    r: (),
)
    requires
        call_ensures(LeaseTable::update_from_neighbor, (leases, mac, ip, now), r),
        now + 300_000_000_000 <= u64::MAX,
    ensures
        others_stay(old(leases)@, final(leases)@, mac),
        final(leases)@.conflicts == old(leases)@.conflicts,
        mac == MacAddr(0, 0, 0, 0, 0, 0) || mac == MacAddr(255, 255, 255, 255, 255, 255)
            || has_address(old(leases)@, mac, ip, now) ==> final(leases)@ == old(leases)@,
        mac != MacAddr(0, 0, 0, 0, 0, 0) && mac != MacAddr(255, 255, 255, 255, 255, 255)
            && !has_address(old(leases)@, mac, ip, now) ==> final(leases)@.leases.contains_key(mac)
            && final(leases)@.leases[mac] == (LeaseView {
            ip,
            expiry: (now + 300_000_000_000) as u64,
            hostname: None,
        }),
{
}

/// Whether some lease that has run out at `now` goes under a name.
pub open spec fn is_name_of_expired(table: LeaseTableState, name: Seq<char>, now: u64) -> bool {
    exists|mac: MacAddr| #[trigger]
        table.leases.contains_key(mac) && table.leases[mac].expiry <= now
            && table.leases[mac].hostname == Some(name)
}

/// Clearing away drops exactly the leases and the holds that have run out, and
/// says which names went with them: each name of a dropped lease is said, and no
/// other.
pub proof fn law_clearing_drops_expired_leases(
    leases: &mut LeaseTable,
    now: u64,
    names: Vec<String>,
    mac: MacAddr,
    ip: Ipv4Addr,
)
    requires
        call_ensures(LeaseTable::evict_expired, (leases, now), names),
    ensures
        final(leases)@.leases.contains_key(mac) <==> runs(old(leases)@, mac, now),
        runs(old(leases)@, mac, now) ==> final(leases)@.leases[mac] == old(leases)@.leases[mac],
        final(leases)@.conflicts.contains_key(ip) <==> is_held_back(old(leases)@, ip, now),
        is_held_back(old(leases)@, ip, now) ==> final(leases)@.conflicts[ip] == old(
            leases,
        )@.conflicts[ip],
        old(leases)@.leases.contains_key(mac) && !runs(old(leases)@, mac, now)
            && old(leases)@.leases[mac].hostname is Some ==> exists|i: int|
            0 <= i < names@.len() && Some((#[trigger] names@[i])@)
                == old(leases)@.leases[mac].hostname,
        forall|i: int|
            0 <= i < names@.len() ==> is_name_of_expired(
                old(leases)@,
                (#[trigger] names@[i])@,
                now,
            ),
{
    lemma_dropped_names(old(leases)@, now, names@, mac);
}

/// Which names are said when leases are dropped.
pub proof fn lemma_dropped_names(
    before: LeaseTableState,
    now: u64,
    names: Seq<String>,
    mac: MacAddr,
)
    requires
        crate::lease_table::lists_expired_hostnames(names, before.leases, now),
    ensures
        before.leases.contains_key(mac) && !runs(before, mac, now) && before.leases[mac].hostname is Some
            ==> exists|i: int|
            0 <= i < names.len() && Some((#[trigger] names[i])@) == before.leases[mac].hostname,
        forall|i: int|
            0 <= i < names.len() ==> is_name_of_expired(before, (#[trigger] names[i])@, now),
{
    let macs = choose|macs: Seq<MacAddr>|
        {
            &&& #[trigger] hostnames_of(names, before.leases, macs)
            &&& macs.no_duplicates()
            &&& forall|m: MacAddr| #[trigger]
                macs.contains(m) <==> crate::lease_table::expired_with_name(before.leases, m, now)
        };
    if before.leases.contains_key(mac) && !runs(before, mac, now)
        && before.leases[mac].hostname is Some {
        assert(macs.contains(mac));
        let i = choose|i: int| 0 <= i < macs.len() && macs[i] == mac;
        assert(before.leases[macs[i]].hostname == Some(names[i]@));
    }
    assert forall|i: int| 0 <= i < names.len() implies is_name_of_expired(
        before,
        (#[trigger] names[i])@,
        now,
    ) by {
        assert(macs.contains(macs[i]));
        assert(before.leases.contains_key(macs[i]));
    }
}

/// Each command to the table does what it says, and nothing else.
pub proof fn law_commands_do_what_they_say(
    cmd: LeaseCommand,
    leases: &mut LeaseTable,
    now: u64,
    r: LeaseReply,
)
    requires
        call_ensures(handle_lease_command, (cmd, leases, now), r),
        cmd.wf(now),
    ensures
        match cmd {
            LeaseCommand::GetExistingIp { client_mac } => {
                &&& final(leases)@ == old(leases)@
                &&& r matches LeaseReply::Ip(found)
                &&& found == (if runs(old(leases)@, client_mac, now) {
                    Some(old(leases)@.leases[client_mac].ip)
                } else {
                    None
                })
            },
            LeaseCommand::AllocateCandidate { client_mac, net, server_ip } => {
                &&& r matches LeaseReply::Ip(found)
                &&& is_lowest_free(old(leases)@, net, server_ip, now, found)
                &&& other_live_leases_stay(old(leases)@, final(leases)@, client_mac, now)
                &&& found matches Some(ip) ==> final(leases)@.leases.contains_key(client_mac)
                    && final(leases)@.leases[client_mac] == (LeaseView {
                    ip,
                    expiry: (now + 10_000_000_000) as u64,
                    hostname: None,
                })
            },
            LeaseCommand::ConfirmLease { client_mac, ip, duration, hostname } => {
                &&& r is Done
                &&& final(leases)@.leases.contains_key(client_mac)
                &&& final(leases)@.leases[client_mac] == (LeaseView {
                    ip,
                    expiry: (now + duration) as u64,
                    hostname: letters(hostname),
                })
                &&& others_stay(old(leases)@, final(leases)@, client_mac)
                &&& final(leases)@.conflicts == old(leases)@.conflicts
            },
            LeaseCommand::ValidateAndConfirmRequest {
                client_mac,
                requested_ip: Some(ip),
                server_ip,
                net,
                duration,
                requested_hostname,
            } => {
                &&& r matches LeaseReply::Confirmation(c)
                &&& may_be_given(old(leases)@, client_mac, ip, server_ip, net, now) ==> c is Some
                    && is_confirmed(
                    old(leases)@,
                    final(leases)@,
                    client_mac,
                    ip,
                    duration,
                    letters(requested_hostname),
                    now,
                    c->0,
                )
                &&& !may_be_given(old(leases)@, client_mac, ip, server_ip, net, now) ==> c is None
                    && final(leases)@ == old(leases)@
            },
            LeaseCommand::ValidateAndConfirmRequest {
                client_mac,
                requested_ip: None,
                server_ip,
                net,
                duration,
                requested_hostname,
            } => {
                let ip = old(leases)@.leases[client_mac].ip;
                let may = runs(old(leases)@, client_mac, now) && may_be_given(
                    old(leases)@,
                    client_mac,
                    ip,
                    server_ip,
                    net,
                    now,
                );
                &&& r matches LeaseReply::Confirmation(c)
                &&& may ==> c is Some && is_confirmed(
                    old(leases)@,
                    final(leases)@,
                    client_mac,
                    ip,
                    duration,
                    letters(requested_hostname),
                    now,
                    c->0,
                )
                &&& !may ==> c is None && final(leases)@ == old(leases)@
            },
            LeaseCommand::CheckConflict { target_ip, client_mac } => {
                &&& r == LeaseReply::Conflict(
                    others_have(old(leases)@, client_mac, target_ip, now),
                )
                &&& final(leases)@ == old(leases)@
            },
            LeaseCommand::RecordConflict { ip, duration } => {
                &&& r is Done
                &&& final(leases)@.leases == old(leases)@.leases
                &&& final(leases)@.conflicts == old(leases)@.conflicts.insert(
                    ip,
                    (now + duration) as u64,
                )
            },
            LeaseCommand::Release { client_mac } => {
                &&& !final(leases)@.leases.contains_key(client_mac)
                &&& others_stay(old(leases)@, final(leases)@, client_mac)
                &&& final(leases)@.conflicts == old(leases)@.conflicts
                &&& r matches LeaseReply::Released(released)
                &&& released is Some <==> old(leases)@.leases.contains_key(client_mac)
                &&& released matches Some((ip, name)) ==> ip == old(leases)@.leases[client_mac].ip
                    && letters(name) == old(leases)@.leases[client_mac].hostname
            },
            LeaseCommand::EvictExpired => {
                &&& r matches LeaseReply::Expired(names)
                &&& forall|i: int|
                    0 <= i < names@.len() ==> is_name_of_expired(
                        old(leases)@,
                        (#[trigger] names@[i])@,
                        now,
                    )
                &&& forall|mac: MacAddr| #[trigger]
                    final(leases)@.leases.contains_key(mac) <==> runs(old(leases)@, mac, now)
                &&& forall|mac: MacAddr| #[trigger]
                    final(leases)@.leases.contains_key(mac) ==> final(leases)@.leases[mac]
                        == old(leases)@.leases[mac]
                &&& forall|ip: Ipv4Addr| #[trigger]
                    final(leases)@.conflicts.contains_key(ip) <==> is_held_back(
                        old(leases)@,
                        ip,
                        now,
                    )
            },
            LeaseCommand::AddNeighbor { mac, ip } => {
                &&& r is Done
                &&& others_stay(old(leases)@, final(leases)@, mac)
                &&& final(leases)@.conflicts == old(leases)@.conflicts
                &&& mac != MacAddr(0, 0, 0, 0, 0, 0) && mac != MacAddr(
                    255,
                    255,
                    255,
                    255,
                    255,
                    255,
                ) ==> has_address(final(leases)@, mac, ip, now)
            },
        },
{
    let (before, after) = (old(leases)@, final(leases)@);
    match cmd {
        LeaseCommand::AllocateCandidate { client_mac, net, server_ip } => {
            lemma_lowest_free(before, net, server_ip, now, r->Ip_0);
        },
        LeaseCommand::ValidateAndConfirmRequest {
            client_mac,
            requested_ip,
            server_ip,
            net,
            duration,
            requested_hostname,
        } => {
            let ip = match requested_ip {
                Some(ip) => ip,
                None => before.leases[client_mac].ip,
            };
            if requested_ip is Some || runs(before, client_mac, now) {
                lemma_confirmed(
                    before,
                    after,
                    client_mac,
                    requested_ip,
                    server_ip,
                    net,
                    duration,
                    letters(requested_hostname),
                    now,
                    r->Confirmation_0,
                    ip,
                );
            }
        },
        LeaseCommand::EvictExpired => {
            lemma_dropped_names(before, now, r->Expired_0@, MacAddr(0, 0, 0, 0, 0, 0));
        },
        LeaseCommand::CheckConflict { target_ip, client_mac } => {
            lemma_taken(before, target_ip, client_mac, now);
        },
        _ => {},
    }
}

/// A new table has no leases and holds nothing back.
pub proof fn law_new_table_is_empty(r: LeaseTable, mac: MacAddr, ip: Ipv4Addr)
    requires
        call_ensures(LeaseTable::new, (), r),
    ensures
        !r@.leases.contains_key(mac),
        !r@.conflicts.contains_key(ip),
{
}

/// The size of the table is the number of clients with a lease.
pub proof fn law_table_counts_its_clients(table: LeaseTable, n: usize, empty: bool)
    requires
        call_ensures(LeaseTable::len, (&table,), n),
        call_ensures(LeaseTable::is_empty, (&table,), empty),
    ensures
        n == table@.leases.dom().len(),
        empty <==> forall|mac: MacAddr| !(#[trigger] table@.leases.contains_key(mac)),
        empty <==> n == 0,
{
    let leases = table@.leases;
    if forall|mac: MacAddr| !(#[trigger] leases.contains_key(mac)) {
        assert(leases =~= Map::empty());
    }
    if empty {
        assert(leases.dom() =~= Set::empty());
    }
    if n == 0 {
        assert forall|mac: MacAddr| !(#[trigger] leases.contains_key(mac)) by {
            if leases.dom().contains(mac) {
                vstd::set::axiom_set_remove_len(leases.dom(), mac);
            }
        }
    }
}

} // verus!
