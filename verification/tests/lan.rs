use trimrouter::addr::{Ipv4Addr, Ipv4Net, MacAddr};
use trimrouter::ipc::{DhcpServerParentToWorkerMsg, DhcpServerWorkerToParentMsg, LocalHostEvent};
use trimrouter::lan::{
    is_subnet_overlap, is_valid_subnet_prefix, lan_step, LanDecision, LanEvent, LanRunner,
    LanStep, ShiftStep,
};
use trimrouter::netlink::{
    find_mac_address_attribute, is_address_or_link_event, parse_neighbor_update,
    run_parent_dhcp_server_monitor, LinkAttribute, NeighbourAttribute, NetlinkEvent,
    ServerParentAction, ServerParentEvent,
};
use trimrouter::wan::WanLease;

fn create_test_runner(current_ip: &str, backup_ip: &str) -> LanRunner {
    LanRunner::new(
        "lan".to_string(),
        current_ip.to_string(),
        backup_ip.to_string(),
    )
}

fn lease(ip: Ipv4Addr, mask: Ipv4Addr) -> WanLease {
    WanLease {
        ip: Some(ip),
        mask: Some(mask),
        gateway: None,
        dns_servers: vec![],
    }
}

/// The address of the LAN after a check.
fn address_after_check(mut runner: LanRunner, lease: &WanLease) -> String {
    if runner.check_and_resolve(lease) == LanDecision::Shift {
        runner.shift_lan_subnet(true, "router");
    }
    runner.current_ip
}

#[test]
fn test_is_address_or_link_event_new_link_returns_true() {
    assert!(is_address_or_link_event(&NetlinkEvent::NewLink));
}

#[test]
fn test_is_address_or_link_event_del_address_returns_true() {
    assert!(is_address_or_link_event(&NetlinkEvent::DelAddress));
}

#[test]
fn test_is_address_or_link_event_unrelated_returns_false() {
    assert!(!is_address_or_link_event(&NetlinkEvent::NewRoute));
}

#[test]
fn test_check_and_resolve_no_wan_lease_no_shift() {
    let runner = create_test_runner("192.168.1.1/24", "10.0.0.1/24");
    assert_eq!(
        address_after_check(runner, &WanLease::default()),
        "192.168.1.1/24"
    );
}

#[test]
fn test_check_and_resolve_disjoint_subnets_no_shift() {
    let lease = WanLease {
        ip: Some(Ipv4Addr::new(10, 0, 2, 15)),
        mask: Some(Ipv4Addr::new(255, 255, 255, 0)),
        gateway: Some(Ipv4Addr::new(10, 0, 2, 2)),
        dns_servers: vec![],
    };
    let runner = create_test_runner("192.168.1.1/24", "10.0.0.1/24");
    assert_eq!(address_after_check(runner, &lease), "192.168.1.1/24");
}

#[test]
fn test_check_and_resolve_invalid_wan_mask_no_shift() {
    let lease = lease(
        Ipv4Addr::new(192, 168, 1, 50),
        Ipv4Addr::new(255, 0, 255, 0),
    );
    let runner = create_test_runner("192.168.1.1/24", "10.0.0.1/24");
    assert_eq!(address_after_check(runner, &lease), "192.168.1.1/24");
}

#[test]
fn test_is_subnet_overlap() {
    let net1 = Ipv4Net::parse("192.168.1.0/24").unwrap();
    let net2 = Ipv4Net::parse("192.168.1.0/25").unwrap();
    let net3 = Ipv4Net::parse("10.0.0.0/24").unwrap();

    assert!(is_subnet_overlap(&net1, &net2));
    assert!(is_subnet_overlap(&net2, &net1));

    assert!(!is_subnet_overlap(&net1, &net3));
    assert!(!is_subnet_overlap(&net3, &net1));
}

#[test]
fn test_is_valid_subnet_prefix() {
    assert!(is_valid_subnet_prefix(8));
    assert!(is_valid_subnet_prefix(24));
    assert!(is_valid_subnet_prefix(30));

    assert!(!is_valid_subnet_prefix(0));
    assert!(!is_valid_subnet_prefix(7));
    assert!(!is_valid_subnet_prefix(31));
    assert!(!is_valid_subnet_prefix(32));
}

#[test]
fn test_check_and_resolve_wan_prefix_zero_ignored() {
    let lease = lease(Ipv4Addr::new(192, 168, 1, 50), Ipv4Addr::new(0, 0, 0, 0));
    let runner = create_test_runner("192.168.1.1/24", "10.0.0.1/24");
    assert_eq!(address_after_check(runner, &lease), "192.168.1.1/24");
}

#[test]
fn test_check_and_resolve_wan_prefix_32_ignored() {
    let lease = lease(
        Ipv4Addr::new(192, 168, 1, 50),
        Ipv4Addr::new(255, 255, 255, 255),
    );
    let runner = create_test_runner("192.168.1.1/24", "10.0.0.1/24");
    assert_eq!(address_after_check(runner, &lease), "192.168.1.1/24");
}

#[test]
fn test_check_and_resolve_backup_also_conflicts_does_not_shift() {
    let lease = lease(
        Ipv4Addr::new(192, 168, 1, 50),
        Ipv4Addr::new(255, 255, 255, 0),
    );
    let runner = create_test_runner("192.168.1.1/24", "192.168.1.100/24");
    assert_eq!(runner.check_and_resolve(&lease), LanDecision::BackupConflicts);
    assert_eq!(address_after_check(runner, &lease), "192.168.1.1/24");
}

#[test]
fn test_check_and_resolve_already_on_backup_no_op() {
    let lease = lease(
        Ipv4Addr::new(10, 0, 0, 50),
        Ipv4Addr::new(255, 255, 255, 0),
    );
    let runner = create_test_runner("10.0.0.1/24", "10.0.0.1/24");
    assert_eq!(runner.check_and_resolve(&lease), LanDecision::AlreadyOnBackup);
    assert_eq!(address_after_check(runner, &lease), "10.0.0.1/24");
}

#[test]
fn conflict_moves_the_lan_and_settles() {
    let lease = lease(
        Ipv4Addr::new(192, 168, 1, 50),
        Ipv4Addr::new(255, 255, 255, 0),
    );
    let mut runner = create_test_runner("192.168.1.1/24", "10.0.0.1/24");
    assert_eq!(runner.check_and_resolve(&lease), LanDecision::Shift);

    assert_eq!(
        runner.shift_lan_subnet(false, "router"),
        ShiftStep {
            restart_server: false,
            announce: None,
        }
    );
    assert_eq!(runner.current_ip, "192.168.1.1/24");

    assert_eq!(
        runner.shift_lan_subnet(true, "router"),
        ShiftStep {
            restart_server: true,
            announce: Some(LocalHostEvent::Register {
                name: "router".to_string(),
                ip: Ipv4Addr::new(10, 0, 0, 1),
            }),
        }
    );
    assert_eq!(runner.current_ip, "10.0.0.1/24");
    assert_eq!(runner.check_and_resolve(&lease), LanDecision::NoConflict);
}

#[test]
fn unreadable_addresses_leave_the_lan_alone() {
    let lease = lease(
        Ipv4Addr::new(192, 168, 1, 50),
        Ipv4Addr::new(255, 255, 255, 0),
    );
    let runner = create_test_runner("192.168.1.1", "10.0.0.1/24");
    assert_eq!(runner.check_and_resolve(&lease), LanDecision::InvalidCurrent);
    let runner = create_test_runner("192.168.1.1/24", "10.0.0.1");
    assert_eq!(runner.check_and_resolve(&lease), LanDecision::InvalidBackup);
}

#[test]
fn manager_checks_on_changes_only() {
    let check = LanStep {
        check: true,
        stop: false,
    };
    let stop = LanStep {
        check: false,
        stop: true,
    };
    let nothing = LanStep {
        check: false,
        stop: false,
    };
    assert_eq!(lan_step(&LanEvent::LeaseChanged), check);
    assert_eq!(lan_step(&LanEvent::Netlink(NetlinkEvent::NewAddress)), check);
    assert_eq!(lan_step(&LanEvent::Netlink(NetlinkEvent::NewRoute)), nothing);
    assert_eq!(lan_step(&LanEvent::Tick), nothing);
    assert_eq!(lan_step(&LanEvent::Shutdown), stop);
    assert_eq!(lan_step(&LanEvent::LeaseSenderGone), stop);
}

fn neighbour(attributes: Vec<NeighbourAttribute>) -> NetlinkEvent {
    NetlinkEvent::NewNeighbour { attributes }
}

#[test]
fn neighbour_needs_both_addresses() {
    let ip = Ipv4Addr::new(192, 168, 1, 10);
    let mac = vec![0x52, 0x54, 0x00, 0x12, 0x34, 0x56];
    let known = (ip, MacAddr::new(0x52, 0x54, 0x00, 0x12, 0x34, 0x56));
    assert_eq!(
        parse_neighbor_update(&neighbour(vec![
            NeighbourAttribute::Other,
            NeighbourAttribute::Destination(ip),
            NeighbourAttribute::LinkLayerAddress(mac.clone()),
        ])),
        Some(known)
    );
    assert_eq!(
        parse_neighbor_update(&neighbour(vec![NeighbourAttribute::Destination(ip)])),
        None
    );
    assert_eq!(
        parse_neighbor_update(&neighbour(vec![
            NeighbourAttribute::Destination(ip),
            NeighbourAttribute::LinkLayerAddress(vec![1, 2]),
        ])),
        None
    );
    assert_eq!(
        parse_neighbor_update(&neighbour(vec![
            NeighbourAttribute::Destination(Ipv4Addr::new(1, 1, 1, 1)),
            NeighbourAttribute::LinkLayerAddress(mac.clone()),
            NeighbourAttribute::LinkLayerAddress(vec![]),
            NeighbourAttribute::Destination(ip),
        ])),
        Some(known)
    );
    assert_eq!(parse_neighbor_update(&NetlinkEvent::NewLink), None);
}

#[test]
fn first_usable_link_address_is_taken() {
    assert_eq!(
        find_mac_address_attribute(&vec![
            LinkAttribute::Other,
            LinkAttribute::Address(vec![1, 2, 3]),
            LinkAttribute::Address(vec![1, 2, 3, 4, 5, 6]),
            LinkAttribute::Address(vec![9, 9, 9, 9, 9, 9]),
        ]),
        Some(MacAddr::new(1, 2, 3, 4, 5, 6))
    );
    assert_eq!(find_mac_address_attribute(&vec![LinkAttribute::Other]), None);
}

#[test]
fn parent_of_the_server_passes_things_on() {
    let ip = Ipv4Addr::new(192, 168, 1, 10);
    let report = neighbour(vec![
        NeighbourAttribute::Destination(ip),
        NeighbourAttribute::LinkLayerAddress(vec![2, 0, 0, 0, 0, 1]),
    ]);
    match run_parent_dhcp_server_monitor(ServerParentEvent::Netlink(report)) {
        ServerParentAction::Send(msg) => assert_eq!(
            msg,
            DhcpServerParentToWorkerMsg::AddNeighbor {
                ip_address: ip,
                mac_address: MacAddr::new(2, 0, 0, 0, 0, 1),
            }
        ),
        _ => panic!("the neighbour is passed on"),
    }
    match run_parent_dhcp_server_monitor(ServerParentEvent::Worker(
        DhcpServerWorkerToParentMsg::DeregisterLocalHost {
            name: "laptop".to_string(),
        },
    )) {
        ServerParentAction::Announce(event) => assert_eq!(
            event,
            LocalHostEvent::Deregister {
                name: "laptop".to_string(),
            }
        ),
        _ => panic!("the name is passed on"),
    }
    assert!(matches!(
        run_parent_dhcp_server_monitor(ServerParentEvent::Worker(
            DhcpServerWorkerToParentMsg::Heartbeat
        )),
        ServerParentAction::Heartbeat
    ));
    assert!(matches!(
        run_parent_dhcp_server_monitor(ServerParentEvent::Netlink(NetlinkEvent::NewLink)),
        ServerParentAction::Nothing
    ));
    for event in [
        ServerParentEvent::Shutdown,
        ServerParentEvent::WorkerGone,
        ServerParentEvent::SendFailed,
    ] {
        assert!(matches!(
            run_parent_dhcp_server_monitor(event),
            ServerParentAction::Stop
        ));
    }
}
