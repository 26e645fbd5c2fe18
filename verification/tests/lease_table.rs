use trimrouter::addr::{Ipv4Addr, Ipv4Net, MacAddr};
use trimrouter::dhcp_server::{verify_arp_conflict, ServerConfig, LAN_LEASE_SECS};
use trimrouter::lease_table::{
    handle_lease_command, ClientLease, LeaseCommand, LeaseConfirmation, LeaseReply, LeaseTable,
    CANDIDATE_HOLD_DURATION,
};

const SECOND: u64 = 1_000_000_000;
const NOW: u64 = 1_000_000 * SECOND;

fn make_config(cidr: &str) -> ServerConfig {
    ServerConfig::new(
        Ipv4Net::parse(cidr).unwrap(),
        MacAddr::new(0, 0, 0, 0, 0, 1),
    )
}

fn host_addresses(net: Ipv4Net) -> Vec<Ipv4Addr> {
    let mut hosts = Vec::new();
    while let Some(ip) = net.host(hosts.len() as u32) {
        hosts.push(ip);
    }
    hosts
}

#[test]
fn test_lease_table_is_empty_and_get_mac_by_ip() {
    let mut table = LeaseTable::new();
    assert!(table.is_empty());

    let mac1 = MacAddr::new(1, 2, 3, 4, 5, 6);
    let ip1 = Ipv4Addr::new(192, 168, 1, 10);

    table.insert(
        mac1,
        ClientLease {
            ip: ip1,
            expiry: NOW + 3600 * SECOND,
            hostname: Some("printer".to_string()),
        },
    );
    assert!(!table.is_empty());
    assert_eq!(table.get_mac_by_ip(ip1, NOW), Some(mac1));
    assert_eq!(
        table.get_mac_by_ip(Ipv4Addr::new(192, 168, 1, 99), NOW),
        None
    );
}

#[test]
fn test_lease_table_is_hostname_taken_by_other() {
    let mut table = LeaseTable::new();
    let mac1 = MacAddr::new(1, 2, 3, 4, 5, 6);
    let mac2 = MacAddr::new(1, 2, 3, 4, 5, 7);
    let laptop = "laptop".to_string();

    table.insert(
        mac1,
        ClientLease {
            ip: Ipv4Addr::new(192, 168, 1, 10),
            expiry: NOW + 3600 * SECOND,
            hostname: Some(laptop.clone()),
        },
    );

    // Taken by another client.
    assert!(table.is_hostname_taken_by_other(&laptop, mac2, NOW));
    // The client itself may keep its name.
    assert!(!table.is_hostname_taken_by_other(&laptop, mac1, NOW));
    // Another name is free.
    assert!(!table.is_hostname_taken_by_other(&"desktop".to_string(), mac2, NOW));

    // An expired lease does not hold its name.
    table.insert(
        mac1,
        ClientLease {
            ip: Ipv4Addr::new(192, 168, 1, 10),
            expiry: NOW - SECOND,
            hostname: Some(laptop.clone()),
        },
    );
    assert!(!table.is_hostname_taken_by_other(&laptop, mac2, NOW));
}

#[test]
fn test_lease_table_basic_allocation() {
    let net = Ipv4Net::parse("192.168.1.1/24").unwrap();
    let server_ip = net.addr;
    let mut leases = LeaseTable::new();
    let client1 = MacAddr::new(1, 2, 3, 4, 5, 6);

    let ip1 = leases
        .allocate_candidate(client1, net, server_ip, NOW)
        .expect("first allocation");
    assert_ne!(ip1, server_ip);
    assert!(host_addresses(net).iter().any(|h| *h == ip1));
    assert!(!leases.is_ip_available(ip1, NOW));

    // Another client gets another address.
    let client2 = MacAddr::new(1, 2, 3, 4, 5, 7);
    let ip2 = leases
        .allocate_candidate(client2, net, server_ip, NOW)
        .expect("second allocation");
    assert_ne!(ip2, ip1);
    assert_ne!(ip2, server_ip);
    assert!(!leases.is_ip_available(ip2, NOW));
}

#[test]
fn test_lease_table_pool_exhaustion() {
    let net = Ipv4Net::parse("192.168.1.1/30").unwrap();
    let server_ip = net.addr;
    let mut leases = LeaseTable::new();

    let client1 = MacAddr::new(1, 2, 3, 4, 5, 6);
    assert_eq!(
        leases.allocate_candidate(client1, net, server_ip, NOW),
        Some(Ipv4Addr::new(192, 168, 1, 2))
    );

    let client2 = MacAddr::new(1, 2, 3, 4, 5, 7);
    assert_eq!(
        leases.allocate_candidate(client2, net, server_ip, NOW),
        None
    );
}

#[test]
fn test_lease_table_remove_frees_ip() {
    let net = Ipv4Net::parse("192.168.1.1/24").unwrap();
    let server_ip = net.addr;
    let mut leases = LeaseTable::new();
    let client = MacAddr::new(1, 2, 3, 4, 5, 6);

    let ip = leases
        .allocate_candidate(client, net, server_ip, NOW)
        .unwrap();
    assert!(!leases.is_ip_available(ip, NOW));

    let removed = leases.remove(&client);
    assert_eq!(removed.map(|l| l.ip), Some(ip));
    assert_eq!(leases.len(), 0);
    assert!(leases.is_ip_available(ip, NOW));

    let ip2 = leases
        .allocate_candidate(client, net, server_ip, NOW)
        .unwrap();
    assert_eq!(ip2, ip);
    assert_eq!(leases.len(), 1);
}

#[test]
fn test_evict_expired_returns_ip_to_pool() {
    let net = Ipv4Net::parse("192.168.1.1/30").unwrap();
    let server_ip = net.addr;
    let mut leases = LeaseTable::new();
    let client = MacAddr::new(1, 2, 3, 4, 5, 6);

    leases.insert(
        client,
        ClientLease {
            ip: Ipv4Addr::new(192, 168, 1, 2),
            expiry: NOW - SECOND,
            hostname: Some("old-host".to_string()),
        },
    );
    assert_eq!(leases.len(), 1);
    assert!(!leases.is_ip_available(Ipv4Addr::new(192, 168, 1, 2), NOW));

    let new_client = MacAddr::new(1, 2, 3, 4, 5, 7);
    let ip = leases.allocate_candidate(new_client, net, server_ip, NOW);
    assert_eq!(
        ip,
        Some(Ipv4Addr::new(192, 168, 1, 2)),
        "expired lease IP must be returned to the pool"
    );
    assert_eq!(leases.len(), 1);
    assert!(leases.get(&client, NOW).is_none());
    assert!(leases.get(&client, NOW - 2 * SECOND).is_none());
}

#[test]
fn test_discover_reoffers_existing_lease_ip() {
    let net = Ipv4Net::parse("192.168.1.1/24").unwrap();
    let server_ip = net.addr;
    let mut leases = LeaseTable::new();
    let client = MacAddr::new(0xAA, 0xBB, 0xCC, 0xDD, 0xEE, 0xFF);

    let ip_first = leases
        .allocate_candidate(client, net, server_ip, NOW)
        .unwrap();
    handle_lease_command(
        LeaseCommand::ConfirmLease {
            client_mac: client,
            ip: ip_first,
            duration: 3600 * SECOND,
            hostname: None,
        },
        &mut leases,
        NOW,
    );

    match handle_lease_command(
        LeaseCommand::GetExistingIp { client_mac: client },
        &mut leases,
        NOW,
    ) {
        LeaseReply::Ip(ip_second) => assert_eq!(
            ip_second,
            Some(ip_first),
            "re-DISCOVER must re-offer the same IP"
        ),
        _ => panic!("an address is the answer"),
    }
}

#[test]
fn test_validate_and_confirm_rejects_server_ip() {
    let config = make_config("192.168.1.1/24");
    let mut leases = LeaseTable::new();
    let client = MacAddr::new(1, 2, 3, 4, 5, 6);

    let result = leases.validate_and_confirm(
        client,
        Some(config.server_ip),
        config.server_ip,
        config.net,
        3600 * SECOND,
        None,
        NOW,
    );
    assert_eq!(result, None);
}

#[test]
fn test_validate_and_confirm_rejects_out_of_subnet() {
    let config = make_config("192.168.1.1/24");
    let mut leases = LeaseTable::new();
    let client = MacAddr::new(1, 2, 3, 4, 5, 6);

    let result = leases.validate_and_confirm(
        client,
        Some(Ipv4Addr::new(10, 0, 0, 5)),
        config.server_ip,
        config.net,
        3600 * SECOND,
        None,
        NOW,
    );
    assert_eq!(result, None);
}

#[test]
fn test_validate_and_confirm_rejects_conflicting_lease() {
    let config = make_config("192.168.1.1/24");
    let mut leases = LeaseTable::new();

    let client1 = MacAddr::new(1, 2, 3, 4, 5, 6);
    let client2 = MacAddr::new(1, 2, 3, 4, 5, 7);
    let contested_ip = Ipv4Addr::new(192, 168, 1, 2);

    leases.insert(
        client1,
        ClientLease {
            ip: contested_ip,
            expiry: NOW + LAN_LEASE_SECS as u64 * SECOND,
            hostname: None,
        },
    );

    // Another client cannot claim it.
    assert_eq!(
        leases.validate_and_confirm(
            client2,
            Some(contested_ip),
            config.server_ip,
            config.net,
            3600 * SECOND,
            None,
            NOW,
        ),
        None
    );
    // The owner can renew it.
    assert_eq!(
        leases.validate_and_confirm(
            client1,
            Some(contested_ip),
            config.server_ip,
            config.net,
            3600 * SECOND,
            None,
            NOW,
        ),
        Some(LeaseConfirmation {
            ip: contested_ip,
            hostname: None,
            old_hostname_to_deregister: None,
        })
    );
}

#[test]
fn test_validate_and_confirm_accepts_valid() {
    let config = make_config("192.168.1.1/24");
    let mut leases = LeaseTable::new();
    let client = MacAddr::new(1, 2, 3, 4, 5, 6);

    let valid_ip = Ipv4Addr::new(192, 168, 1, 100);
    let res = leases.validate_and_confirm(
        client,
        Some(valid_ip),
        config.server_ip,
        config.net,
        3600 * SECOND,
        Some("printer".to_string()),
        NOW,
    );
    assert_eq!(
        res,
        Some(LeaseConfirmation {
            ip: valid_ip,
            hostname: Some("printer".to_string()),
            old_hostname_to_deregister: None,
        })
    );
}

#[test]
fn test_verify_arp_conflict_detects_conflict() {
    let mut leases = LeaseTable::new();

    let client_mac = MacAddr::new(0x00, 0x11, 0x22, 0x33, 0x44, 0x55);
    let owner_mac = MacAddr::new(0x52, 0x54, 0x00, 0x12, 0x34, 0x56);
    let target_ip = Ipv4Addr::new(192, 168, 1, 50);

    handle_lease_command(
        LeaseCommand::AddNeighbor {
            mac: owner_mac,
            ip: target_ip,
        },
        &mut leases,
        NOW,
    );

    let is_conflict = verify_arp_conflict(target_ip, client_mac, &mut leases, NOW);
    assert!(is_conflict);
    match handle_lease_command(
        LeaseCommand::CheckConflict {
            target_ip,
            client_mac,
        },
        &mut leases,
        NOW,
    ) {
        LeaseReply::Conflict(found) => assert!(found),
        _ => panic!("a verdict is the answer"),
    }
}

#[test]
fn test_update_from_neighbor_preserves_different_ip() {
    let mut leases = LeaseTable::new();
    let mac = MacAddr::new(0x00, 0x11, 0x22, 0x33, 0x44, 0x55);
    let ip = Ipv4Addr::new(192, 168, 1, 50);

    leases.update_from_neighbor(mac, ip, NOW);
    let lease = leases.get(&mac, NOW).unwrap();
    assert_eq!(lease.ip, ip);
}

#[test]
fn test_concurrent_discover_allocations_no_duplicates() {
    let net = Ipv4Net::parse("192.168.1.1/24").unwrap();
    let server_ip = net.addr;
    let mut leases = LeaseTable::new();

    let mac1 = MacAddr::new(0x00, 0x11, 0x22, 0x33, 0x44, 0x01);
    let mac2 = MacAddr::new(0x00, 0x11, 0x22, 0x33, 0x44, 0x02);

    let ip1 = leases
        .allocate_candidate(mac1, net, server_ip, NOW)
        .expect("client 1 allocated ip");
    let ip2 = leases
        .allocate_candidate(mac2, net, server_ip, NOW)
        .expect("client 2 allocated ip");

    assert_ne!(ip1, ip2, "concurrent allocations MUST receive distinct IPs");
    assert_ne!(ip1, server_ip);
    assert_ne!(ip2, server_ip);
}

fn is_refused(ip: Ipv4Addr) -> bool {
    let config = make_config("192.168.1.1/24");
    let mut leases = LeaseTable::new();
    let client = MacAddr::new(1, 2, 3, 4, 5, 6);
    leases
        .validate_and_confirm(
            client,
            Some(ip),
            config.server_ip,
            config.net,
            3600 * SECOND,
            None,
            NOW,
        )
        .is_none()
}

#[test]
fn test_validate_and_confirm_unspecified_zero_ip_rejected() {
    assert!(is_refused(Ipv4Addr::unspecified()));
}

#[test]
fn test_validate_and_confirm_broadcast_ip_rejected() {
    let broadcast_ip = make_config("192.168.1.1/24").net.broadcast();
    assert_eq!(broadcast_ip, Ipv4Addr::new(192, 168, 1, 255));
    assert!(is_refused(broadcast_ip));
}

#[test]
fn test_validate_and_confirm_network_ip_rejected() {
    let network_ip = make_config("192.168.1.1/24").net.network();
    assert_eq!(network_ip, Ipv4Addr::new(192, 168, 1, 0));
    assert!(is_refused(network_ip));
}

#[test]
fn test_hostname_collision_rfc4703_skips_registration() {
    let config = make_config("192.168.1.1/24");
    let mut leases = LeaseTable::new();

    let client1 = MacAddr::new(0x00, 0x11, 0x22, 0x33, 0x44, 0x55);
    let client2 = MacAddr::new(0x00, 0x11, 0x22, 0x33, 0xAA, 0xBB);

    // The first client registers the name.
    let res1 = leases.validate_and_confirm(
        client1,
        Some(Ipv4Addr::new(192, 168, 1, 10)),
        config.server_ip,
        config.net,
        3600 * SECOND,
        Some("laptop".to_string()),
        NOW,
    );
    assert_eq!(
        res1,
        Some(LeaseConfirmation {
            ip: Ipv4Addr::new(192, 168, 1, 10),
            hostname: Some("laptop".to_string()),
            old_hostname_to_deregister: None,
        })
    );

    // The second client gets its address, but not the name.
    let res2 = leases.validate_and_confirm(
        client2,
        Some(Ipv4Addr::new(192, 168, 1, 20)),
        config.server_ip,
        config.net,
        3600 * SECOND,
        Some("laptop".to_string()),
        NOW,
    );
    assert_eq!(
        res2,
        Some(LeaseConfirmation {
            ip: Ipv4Addr::new(192, 168, 1, 20),
            hostname: None,
            old_hostname_to_deregister: None,
        })
    );

    // The first client keeps the name when it renews.
    let res1_renew = leases.validate_and_confirm(
        client1,
        Some(Ipv4Addr::new(192, 168, 1, 10)),
        config.server_ip,
        config.net,
        3600 * SECOND,
        Some("laptop".to_string()),
        NOW,
    );
    assert_eq!(
        res1_renew,
        Some(LeaseConfirmation {
            ip: Ipv4Addr::new(192, 168, 1, 10),
            hostname: Some("laptop".to_string()),
            old_hostname_to_deregister: None,
        })
    );
}

#[test]
fn test_validate_and_confirm_hostname_change_deregisters_old() {
    let config = make_config("192.168.1.1/24");
    let mut leases = LeaseTable::new();
    let client = MacAddr::new(1, 2, 3, 4, 5, 6);
    let valid_ip = Ipv4Addr::new(192, 168, 1, 100);

    let res1 = leases.validate_and_confirm(
        client,
        Some(valid_ip),
        config.server_ip,
        config.net,
        3600 * SECOND,
        Some("laptop".to_string()),
        NOW,
    );
    assert_eq!(
        res1,
        Some(LeaseConfirmation {
            ip: valid_ip,
            hostname: Some("laptop".to_string()),
            old_hostname_to_deregister: None,
        })
    );

    let res2 = leases.validate_and_confirm(
        client,
        Some(valid_ip),
        config.server_ip,
        config.net,
        3600 * SECOND,
        Some("workstation".to_string()),
        NOW,
    );
    assert_eq!(
        res2,
        Some(LeaseConfirmation {
            ip: valid_ip,
            hostname: Some("workstation".to_string()),
            old_hostname_to_deregister: Some("laptop".to_string()),
        })
    );

    let res3 = leases.validate_and_confirm(
        client,
        Some(valid_ip),
        config.server_ip,
        config.net,
        3600 * SECOND,
        None,
        NOW,
    );
    assert_eq!(
        res3,
        Some(LeaseConfirmation {
            ip: valid_ip,
            hostname: None,
            old_hostname_to_deregister: Some("workstation".to_string()),
        })
    );
}

#[test]
fn test_record_multiple_conflicts_held_simultaneously() {
    let mut leases = LeaseTable::new();
    let ip1 = Ipv4Addr::new(192, 168, 1, 10);
    let ip2 = Ipv4Addr::new(192, 168, 1, 20);

    leases.record_conflict(ip1, 300 * SECOND, NOW);
    leases.record_conflict(ip2, 300 * SECOND, NOW);

    assert!(!leases.is_ip_available(ip1, NOW));
    assert!(!leases.is_ip_available(ip2, NOW));
    assert!(leases.is_conflict_active(ip1, NOW));
    assert!(leases.is_conflict_active(ip2, NOW));
}

#[test]
fn test_release_non_existent_and_existing_leases() {
    let mut leases = LeaseTable::new();
    let client1 = MacAddr::new(1, 2, 3, 4, 5, 6);
    let client2 = MacAddr::new(1, 2, 3, 4, 5, 7);
    let ip = Ipv4Addr::new(192, 168, 1, 50);

    assert_eq!(leases.remove(&client1), None);

    leases.insert(
        client1,
        ClientLease {
            ip,
            expiry: NOW + 3600 * SECOND,
            hostname: None,
        },
    );
    assert!(!leases.is_ip_available(ip, NOW));

    let released = leases.remove(&client1);
    assert!(released.is_some());
    assert_eq!(released.unwrap().ip, ip);
    assert!(leases.is_ip_available(ip, NOW));

    assert_eq!(leases.remove(&client2), None);
}

#[test]
fn conflict_hold_runs_out() {
    let mut leases = LeaseTable::new();
    let ip = Ipv4Addr::new(192, 168, 1, 10);
    leases.record_conflict(ip, 300 * SECOND, NOW);
    assert!(leases.is_conflict_active(ip, NOW + 299 * SECOND));
    assert!(!leases.is_conflict_active(ip, NOW + 300 * SECOND));
    assert!(leases.is_ip_available(ip, NOW + 300 * SECOND));
}

#[test]
fn held_back_address_is_skipped() {
    let net = Ipv4Net::parse("192.168.1.1/24").unwrap();
    let mut leases = LeaseTable::new();
    leases.record_conflict(Ipv4Addr::new(192, 168, 1, 2), 300 * SECOND, NOW);
    assert_eq!(
        leases.next_available_ip(net, net.addr, NOW),
        Some(Ipv4Addr::new(192, 168, 1, 3))
    );
}

#[test]
fn candidate_is_held_for_ten_seconds() {
    let net = Ipv4Net::parse("192.168.1.1/30").unwrap();
    let mut leases = LeaseTable::new();
    let first = MacAddr::new(2, 0, 0, 0, 0, 1);
    let second = MacAddr::new(2, 0, 0, 0, 0, 2);
    let offered = leases.allocate_candidate(first, net, net.addr, NOW).unwrap();
    let held_until = NOW + CANDIDATE_HOLD_DURATION;
    assert_eq!(CANDIDATE_HOLD_DURATION, 10 * SECOND);
    assert_eq!(leases.allocate_candidate(second, net, net.addr, held_until - 1), None);
    assert_eq!(
        leases.allocate_candidate(second, net, net.addr, held_until),
        Some(offered)
    );
}

#[test]
fn eviction_names_the_hosts_that_left() {
    let mut leases = LeaseTable::new();
    let gone = MacAddr::new(2, 0, 0, 0, 0, 1);
    let stays = MacAddr::new(2, 0, 0, 0, 0, 2);
    leases.insert(
        gone,
        ClientLease {
            ip: Ipv4Addr::new(192, 168, 1, 10),
            expiry: NOW,
            hostname: Some("gone".to_string()),
        },
    );
    leases.insert(
        stays,
        ClientLease {
            ip: Ipv4Addr::new(192, 168, 1, 11),
            expiry: NOW + 1,
            hostname: Some("stays".to_string()),
        },
    );
    assert_eq!(leases.evict_expired(NOW), vec!["gone".to_string()]);
    assert_eq!(leases.len(), 1);
    assert!(leases.get(&stays, NOW).is_some());
    assert!(leases.is_ip_available(Ipv4Addr::new(192, 168, 1, 10), NOW));
}

#[test]
fn address_of_two_clients_stays_taken_until_both_are_gone() {
    let mut leases = LeaseTable::new();
    let ip = Ipv4Addr::new(192, 168, 1, 10);
    let first = MacAddr::new(2, 0, 0, 0, 0, 1);
    let second = MacAddr::new(2, 0, 0, 0, 0, 2);
    for mac in [first, second] {
        leases.insert(
            mac,
            ClientLease {
                ip,
                expiry: NOW + 3600 * SECOND,
                hostname: None,
            },
        );
    }
    assert!(leases.is_ip_taken_by_other(ip, first, NOW));
    leases.remove(&first);
    assert!(!leases.is_ip_available(ip, NOW));
    leases.remove(&second);
    assert!(leases.is_ip_available(ip, NOW));
}

#[test]
fn neighbor_with_a_lease_keeps_it() {
    let mut leases = LeaseTable::new();
    let mac = MacAddr::new(2, 0, 0, 0, 0, 1);
    let ip = Ipv4Addr::new(192, 168, 1, 10);
    leases.insert(
        mac,
        ClientLease {
            ip,
            expiry: NOW + 3600 * SECOND,
            hostname: Some("host".to_string()),
        },
    );
    leases.update_from_neighbor(mac, ip, NOW);
    assert_eq!(leases.get(&mac, NOW).unwrap().expiry, NOW + 3600 * SECOND);
    leases.update_from_neighbor(MacAddr::zero(), ip, NOW);
    leases.update_from_neighbor(MacAddr::broadcast(), ip, NOW);
    assert_eq!(leases.len(), 1);
}

#[test]
fn expired_lease_is_not_active() {
    let net = Ipv4Net::parse("192.168.1.1/24").unwrap();
    let mut leases = LeaseTable::new();
    let mac = MacAddr::new(2, 0, 0, 0, 0, 1);
    let ip = Ipv4Addr::new(192, 168, 1, 10);
    leases.insert(
        mac,
        ClientLease {
            ip,
            expiry: NOW - SECOND,
            hostname: Some("host".to_string()),
        },
    );
    assert!(leases.get(&mac, NOW).is_none());
    assert!(leases.get(&mac, NOW - SECOND).is_none());
    assert_eq!(leases.get(&mac, NOW - SECOND - 1).unwrap().ip, ip);
    match handle_lease_command(
        LeaseCommand::GetExistingIp { client_mac: mac },
        &mut leases,
        NOW,
    ) {
        LeaseReply::Ip(found) => assert_eq!(found, None),
        _ => panic!("an address is the answer"),
    }

    let renewed =
        leases.validate_and_confirm(mac, None, net.addr, net, 3600 * SECOND, None, NOW);
    assert!(renewed.is_none());
    let confirmed = leases
        .validate_and_confirm(mac, Some(ip), net.addr, net, 3600 * SECOND, None, NOW)
        .unwrap();
    assert_eq!(confirmed.ip, ip);
    assert_eq!(
        confirmed.old_hostname_to_deregister,
        Some("host".to_string()),
        "the name on the expired lease is given up"
    );
    let renewed = leases
        .validate_and_confirm(mac, None, net.addr, net, 3600 * SECOND, None, NOW)
        .unwrap();
    assert_eq!(renewed.ip, ip);
}

#[test]
fn neighbor_with_an_expired_lease_is_recorded() {
    let mut leases = LeaseTable::new();
    let mac = MacAddr::new(2, 0, 0, 0, 0, 1);
    let ip = Ipv4Addr::new(192, 168, 1, 10);
    leases.insert(
        mac,
        ClientLease {
            ip,
            expiry: NOW,
            hostname: None,
        },
    );
    leases.update_from_neighbor(mac, ip, NOW);
    assert_eq!(leases.get(&mac, NOW).unwrap().ip, ip);
    assert!(leases.is_ip_taken_by_other(ip, MacAddr::new(2, 0, 0, 0, 0, 2), NOW));
}

#[test]
fn confirmed_names_stay_exclusive() {
    let net = Ipv4Net::parse("192.168.1.1/24").unwrap();
    let mut leases = LeaseTable::new();
    let first = MacAddr::new(2, 0, 0, 0, 0, 1);
    let second = MacAddr::new(2, 0, 0, 0, 0, 2);
    let name = || Some("laptop".to_string());
    let mut confirm = |mac, last: u8, now| {
        leases
            .validate_and_confirm(
                mac,
                Some(Ipv4Addr::new(192, 168, 1, last)),
                net.addr,
                net,
                3600 * SECOND,
                name(),
                now,
            )
            .unwrap()
            .hostname
    };
    assert_eq!(confirm(first, 10, NOW), name());
    assert_eq!(confirm(second, 11, NOW), None);
    assert_eq!(confirm(first, 10, NOW + SECOND), name());
    let expired = NOW + SECOND + 3600 * SECOND;
    assert_eq!(confirm(second, 11, expired), name());
    assert_eq!(confirm(first, 10, expired), None);
}

#[test]
fn two_requests_get_two_candidates_in_either_order() {
    let net = Ipv4Net::parse("192.168.1.1/29").unwrap();
    let first = MacAddr::new(2, 0, 0, 0, 0, 1);
    let second = MacAddr::new(2, 0, 0, 0, 0, 2);
    for order in [[first, second], [second, first]] {
        let mut leases = LeaseTable::new();
        let offered: Vec<Option<Ipv4Addr>> = order
            .iter()
            .map(|mac| leases.allocate_candidate(*mac, net, net.addr, NOW))
            .collect();
        assert_eq!(
            offered,
            vec![
                Some(Ipv4Addr::new(192, 168, 1, 2)),
                Some(Ipv4Addr::new(192, 168, 1, 3))
            ]
        );
        let lease = leases.get(&order[0], NOW).unwrap();
        assert_eq!(lease.expiry, NOW + CANDIDATE_HOLD_DURATION);
        assert_eq!(lease.hostname, None);
    }
}
