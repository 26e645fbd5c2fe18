use trimrouter::addr::{Ipv4Addr, Ipv4Net, MacAddr};
use trimrouter::dhcp::{
    parse_dhcp_payload, DhcpMessage, OptionValue, BOOT_REPLY, CLIENT_PORT, DHCP_ACK, DHCP_DISCOVER,
    DHCP_NAK, DHCP_OFFER, DHCP_RELEASE, DHCP_REQUEST, OPT_DOMAIN_NAME_SERVER, OPT_HOSTNAME,
    OPT_LEASE_TIME, OPT_MESSAGE_TYPE, OPT_REQUESTED_IP, OPT_ROUTER, OPT_SERVER_IDENTIFIER,
    OPT_SUBNET_MASK, SERVER_PORT,
};
use trimrouter::dhcp_client::build_discover_message;
use trimrouter::dhcp_server::{
    continue_dhcp_discover, continue_dhcp_request, extract_client_mac, extract_sanitized_hostname,
    get_dest_mac_ip, host_messages, is_spoofed_l2_packet, process_incoming_packet,
    run_server_loop, send_dhcp_frame, should_process_request_server_id, Reply, ServerAction,
    ServerConfig, ServerEvent,
};
use trimrouter::ipc::{DhcpServerParentToWorkerMsg, DhcpServerWorkerToParentMsg};
use trimrouter::lease_table::{ClientLease, LeaseTable};
use trimrouter::packet::{build_raw_packet, UdpRoute};

const SECOND: u64 = 1_000_000_000;
const NOW: u64 = 1_000_000 * SECOND;

fn make_config(cidr: &str) -> ServerConfig {
    ServerConfig::new(
        Ipv4Net::parse(cidr).unwrap(),
        MacAddr::new(0, 0, 0, 0, 0, 1),
    )
}

fn message_from(chaddr: &[u8]) -> DhcpMessage {
    let mut msg = DhcpMessage::new();
    msg.hlen = chaddr.len() as u8;
    msg.chaddr = chaddr.to_vec();
    msg
}

fn client() -> MacAddr {
    MacAddr::new(0x02, 0x11, 0x22, 0x33, 0x44, 0x55)
}

/// The frame by which a client on the LAN sends a message.
fn frame_from(source: MacAddr, msg: &DhcpMessage) -> Vec<u8> {
    let route = UdpRoute {
        src_mac: source,
        dst_mac: MacAddr::broadcast(),
        src_ip: Ipv4Addr::unspecified(),
        dst_ip: Ipv4Addr::broadcast(),
        src_port: CLIENT_PORT,
        dst_port: SERVER_PORT,
    };
    build_raw_packet(&route, &msg.encode()).unwrap()
}

/// What the client reads from a reply.
fn read_reply(config: &ServerConfig, reply: &Reply) -> DhcpMessage {
    let frame = send_dhcp_frame(config, reply).unwrap();
    parse_dhcp_payload(&frame, CLIENT_PORT).unwrap()
}

#[test]
fn test_extract_client_mac_valid_and_invalid() {
    // Six bytes.
    let msg_valid = message_from(&[0x00, 0x11, 0x22, 0x33, 0x44, 0x55]);
    assert_eq!(
        extract_client_mac(&msg_valid),
        Some(MacAddr::new(0x00, 0x11, 0x22, 0x33, 0x44, 0x55))
    );

    // No bytes.
    assert_eq!(extract_client_mac(&message_from(&[])), None);

    // Sixteen bytes.
    assert_eq!(extract_client_mac(&message_from(&[0x00; 16])), None);

    // All zero.
    assert_eq!(extract_client_mac(&message_from(&[0x00; 6])), None);

    // All ones.
    assert_eq!(extract_client_mac(&message_from(&[0xFF; 6])), None);

    // A message that claims a hardware address of 255 bytes.
    let mut raw_bytes = vec![0u8; 300];
    raw_bytes[0] = 1;
    raw_bytes[1] = 1;
    raw_bytes[2] = 255;
    raw_bytes[236..240].copy_from_slice(&[99, 130, 83, 99]);
    if let Some(msg_oob) = DhcpMessage::decode(&raw_bytes) {
        assert_eq!(extract_client_mac(&msg_oob), None);
    }
}

#[test]
fn test_is_spoofed_l2_packet_anti_spoofing() {
    let mac1 = MacAddr::new(0x00, 0x11, 0x22, 0x33, 0x44, 0x01);
    let mac2 = MacAddr::new(0x00, 0x11, 0x22, 0x33, 0x44, 0x02);

    assert!(!is_spoofed_l2_packet(mac1, mac1, Ipv4Addr::unspecified()));
    assert!(is_spoofed_l2_packet(mac1, mac2, Ipv4Addr::unspecified()));

    let relay_ip = Ipv4Addr::new(192, 168, 1, 254);
    assert!(!is_spoofed_l2_packet(mac1, mac2, relay_ip));
}

#[test]
fn test_should_process_request_server_id() {
    let server_ip = Ipv4Addr::new(192, 168, 1, 1);
    let other_server_ip = Ipv4Addr::new(192, 168, 1, 254);

    let mut msg_match = DhcpMessage::new();
    msg_match.insert(OPT_SERVER_IDENTIFIER, OptionValue::Address(server_ip));
    assert!(should_process_request_server_id(&msg_match, server_ip));

    let mut msg_mismatch = DhcpMessage::new();
    msg_mismatch.insert(OPT_SERVER_IDENTIFIER, OptionValue::Address(other_server_ip));
    assert!(!should_process_request_server_id(&msg_mismatch, server_ip));

    let msg_none = DhcpMessage::new();
    assert!(should_process_request_server_id(&msg_none, server_ip));
}

#[test]
fn test_get_dest_mac_ip_broadcast_and_unicast() {
    let client_mac = MacAddr::new(0x00, 0x11, 0x22, 0x33, 0x44, 0x55);
    let leased_ip = Ipv4Addr::new(192, 168, 1, 100);

    let (b_mac, b_ip) = get_dest_mac_ip(true, client_mac, leased_ip);
    assert_eq!(b_mac, MacAddr::broadcast());
    assert_eq!(b_ip, Ipv4Addr::broadcast());

    let (u_mac, u_ip) = get_dest_mac_ip(false, client_mac, leased_ip);
    assert_eq!(u_mac, client_mac);
    assert_eq!(u_ip, leased_ip);
}

#[test]
fn hostname_option_is_sanitized() {
    let mut msg = DhcpMessage::new();
    assert_eq!(extract_sanitized_hostname(&msg), None);
    msg.insert(OPT_HOSTNAME, OptionValue::Text("Laptop.lan".to_string()));
    assert_eq!(extract_sanitized_hostname(&msg), Some("laptop".to_string()));
}

#[test]
fn configuration_is_read_from_text() {
    let config = ServerConfig::parse("192.168.1.1/24", MacAddr::new(0, 0, 0, 0, 0, 1)).unwrap();
    assert_eq!(config, make_config("192.168.1.1/24"));
    assert_eq!(config.subnet_mask, Ipv4Addr::new(255, 255, 255, 0));
    assert!(ServerConfig::parse("192.168.1.1", MacAddr::zero()).is_none());
}

#[test]
fn discovery_is_probed_and_answered_with_an_offer() {
    let config = make_config("192.168.1.1/24");
    let mut leases = LeaseTable::new();
    let discover = build_discover_message(client(), 0xfeed);
    let frame = frame_from(client(), &discover);

    let (dhcp, ip) = match process_incoming_packet(&frame, &config, &mut leases, NOW) {
        ServerAction::ProbeOffer { dhcp, client_mac, ip } => {
            assert_eq!(client_mac, client());
            (dhcp, ip)
        }
        _ => panic!("an address is probed"),
    };
    assert_eq!(ip, Ipv4Addr::new(192, 168, 1, 2));

    let reply = match continue_dhcp_discover(&config, dhcp, client(), ip, &mut leases, NOW) {
        ServerAction::Send(reply) => reply,
        _ => panic!("an offer is sent"),
    };
    assert_eq!(reply.dest_mac, MacAddr::broadcast());
    let offer = read_reply(&config, &reply);
    assert_eq!(offer.opcode, BOOT_REPLY);
    assert_eq!(offer.xid, 0xfeed);
    assert_eq!(offer.yiaddr, ip);
    assert_eq!(offer.message_type(), Some(DHCP_OFFER));
    assert_eq!(offer.server_identifier(), Some(config.server_ip));
    assert_eq!(
        offer.option(OPT_SUBNET_MASK),
        Some(&OptionValue::Address(Ipv4Addr::new(255, 255, 255, 0)))
    );
    assert_eq!(
        offer.option(OPT_ROUTER),
        Some(&OptionValue::Addresses(vec![config.server_ip]))
    );
    assert_eq!(
        offer.option(OPT_DOMAIN_NAME_SERVER),
        Some(&OptionValue::Addresses(vec![config.server_ip]))
    );
    assert_eq!(offer.option(OPT_LEASE_TIME), Some(&OptionValue::Seconds(3600)));

    // A second discovery is answered at once, with the same address.
    match process_incoming_packet(&frame, &config, &mut leases, NOW + SECOND) {
        ServerAction::Send(again) => assert_eq!(read_reply(&config, &again).yiaddr, ip),
        _ => panic!("the offer is repeated"),
    }
}

#[test]
fn address_found_in_use_is_not_offered() {
    let config = make_config("192.168.1.1/24");
    let mut leases = LeaseTable::new();
    let discover = build_discover_message(client(), 1);
    let ip = Ipv4Addr::new(192, 168, 1, 2);
    leases.update_from_neighbor(MacAddr::new(2, 9, 9, 9, 9, 9), ip, NOW);
    match continue_dhcp_discover(&config, discover, client(), ip, &mut leases, NOW) {
        ServerAction::ProbeOffer { ip: next, .. } => assert_eq!(next, Ipv4Addr::new(192, 168, 1, 3)),
        _ => panic!("another address is probed"),
    }
    assert!(leases.is_conflict_active(ip, NOW));
}

fn request_for(ip: Ipv4Addr, hostname: &str) -> DhcpMessage {
    let mut request = message_from(&[0x02, 0x11, 0x22, 0x33, 0x44, 0x55]);
    request.xid = 77;
    request.insert(OPT_MESSAGE_TYPE, OptionValue::Kind(DHCP_REQUEST));
    request.insert(OPT_REQUESTED_IP, OptionValue::Address(ip));
    request.insert(OPT_HOSTNAME, OptionValue::Text(hostname.to_string()));
    request
}

#[test]
fn request_is_acknowledged_and_its_name_registered() {
    let config = make_config("192.168.1.1/24");
    let mut leases = LeaseTable::new();
    let ip = Ipv4Addr::new(192, 168, 1, 40);
    let frame = frame_from(client(), &request_for(ip, "Laptop"));

    let (dhcp, confirmation) = match process_incoming_packet(&frame, &config, &mut leases, NOW) {
        ServerAction::ProbeAck { dhcp, confirmation, .. } => (dhcp, confirmation),
        _ => panic!("the address is probed"),
    };
    let action = continue_dhcp_request(&config, dhcp, client(), confirmation, &mut leases, NOW);
    assert_eq!(
        host_messages(&action),
        vec![DhcpServerWorkerToParentMsg::RegisterLocalHost {
            name: "laptop".to_string(),
            ip,
        }]
    );
    match action {
        ServerAction::Ack { reply, .. } => {
            assert_eq!((reply.dest_mac, reply.dest_ip), (client(), ip));
            let ack = read_reply(&config, &reply);
            assert_eq!(ack.message_type(), Some(DHCP_ACK));
            assert_eq!(ack.yiaddr, ip);
            assert_eq!(ack.xid, 77);
        }
        _ => panic!("an acknowledgement is sent"),
    }

    // A release gives the name back.
    let mut release = message_from(&[0x02, 0x11, 0x22, 0x33, 0x44, 0x55]);
    release.insert(OPT_MESSAGE_TYPE, OptionValue::Kind(DHCP_RELEASE));
    let frame = frame_from(client(), &release);
    let action = process_incoming_packet(&frame, &config, &mut leases, NOW);
    assert_eq!(
        host_messages(&action),
        vec![DhcpServerWorkerToParentMsg::DeregisterLocalHost {
            name: "laptop".to_string(),
        }]
    );
    assert!(leases.is_empty());
}

#[test]
fn request_for_a_foreign_address_is_refused() {
    let config = make_config("192.168.1.1/24");
    let mut leases = LeaseTable::new();
    let frame = frame_from(client(), &request_for(Ipv4Addr::new(10, 0, 0, 5), "laptop"));
    match process_incoming_packet(&frame, &config, &mut leases, NOW) {
        ServerAction::Send(reply) => {
            let nak = read_reply(&config, &reply);
            assert_eq!(nak.message_type(), Some(DHCP_NAK));
            assert_eq!(nak.server_identifier(), Some(config.server_ip));
        }
        _ => panic!("a refusal is sent"),
    }
    assert!(leases.is_empty());
}

#[test]
fn frame_sent_in_the_name_of_another_is_dropped() {
    let config = make_config("192.168.1.1/24");
    let mut leases = LeaseTable::new();
    let discover = build_discover_message(client(), 1);
    let frame = frame_from(MacAddr::new(0x02, 0, 0, 0, 0, 0x66), &discover);
    assert!(matches!(
        process_incoming_packet(&frame, &config, &mut leases, NOW),
        ServerAction::Nothing
    ));
    assert!(leases.is_empty());
}

#[test]
fn full_pool_is_reported() {
    let config = make_config("192.168.1.1/30");
    let mut leases = LeaseTable::new();
    leases.insert(
        MacAddr::new(2, 0, 0, 0, 0, 9),
        ClientLease {
            ip: Ipv4Addr::new(192, 168, 1, 2),
            expiry: NOW + 3600 * SECOND,
            hostname: None,
        },
    );
    let mut discover = build_discover_message(client(), 1);
    discover.insert(OPT_MESSAGE_TYPE, OptionValue::Kind(DHCP_DISCOVER));
    let frame = frame_from(client(), &discover);
    assert!(matches!(
        process_incoming_packet(&frame, &config, &mut leases, NOW),
        ServerAction::PoolExhausted
    ));
}

#[test]
fn each_tick_reports_life_and_the_names_that_ran_out() {
    let mut leases = LeaseTable::new();
    leases.insert(
        client(),
        ClientLease {
            ip: Ipv4Addr::new(192, 168, 1, 2),
            expiry: NOW,
            hostname: Some("laptop".to_string()),
        },
    );
    let step = run_server_loop(ServerEvent::Tick, &mut leases, NOW);
    assert!(!step.stop);
    assert_eq!(
        step.messages,
        vec![
            DhcpServerWorkerToParentMsg::Heartbeat,
            DhcpServerWorkerToParentMsg::DeregisterLocalHost {
                name: "laptop".to_string(),
            },
        ]
    );

    let neighbor = DhcpServerParentToWorkerMsg::AddNeighbor {
        ip_address: Ipv4Addr::new(192, 168, 1, 7),
        mac_address: client(),
    };
    let step = run_server_loop(ServerEvent::Parent(neighbor), &mut leases, NOW);
    assert!(step.messages.is_empty() && !step.stop);
    assert_eq!(leases.get(&client(), NOW).unwrap().ip, Ipv4Addr::new(192, 168, 1, 7));

    assert!(run_server_loop(ServerEvent::ParentGone, &mut leases, NOW).stop);
}

/// The addresses of the clients with a lease that runs past `now`.
fn live_addresses(leases: &LeaseTable, clients: &[MacAddr], now: u64) -> Vec<Ipv4Addr> {
    clients
        .iter()
        .filter_map(|mac| leases.get(mac, now).map(|lease| lease.ip))
        .collect()
}

#[test]
fn address_that_passed_to_another_client_is_not_offered_again() {
    let config = make_config("192.168.1.1/24");
    let mut leases = LeaseTable::new();
    let other = MacAddr::new(0x02, 0, 0, 0, 0, 9);
    let ip = Ipv4Addr::new(192, 168, 1, 2);
    leases.insert(
        client(),
        ClientLease {
            ip,
            expiry: NOW - SECOND,
            hostname: None,
        },
    );
    leases.insert(
        other,
        ClientLease {
            ip,
            expiry: NOW + 3600 * SECOND,
            hostname: None,
        },
    );
    let discover = frame_from(client(), &build_discover_message(client(), 1));
    match process_incoming_packet(&discover, &config, &mut leases, NOW) {
        ServerAction::ProbeOffer { ip: next, .. } => {
            assert_eq!(next, Ipv4Addr::new(192, 168, 1, 3));
        }
        _ => panic!("another address is probed"),
    }
    assert_eq!(
        live_addresses(&leases, &[client(), other], NOW),
        vec![Ipv4Addr::new(192, 168, 1, 3), ip]
    );
}

#[test]
fn client_with_an_expired_lease_gets_a_fresh_candidate() {
    let config = make_config("192.168.1.1/24");
    let mut leases = LeaseTable::new();
    leases.insert(
        client(),
        ClientLease {
            ip: Ipv4Addr::new(192, 168, 1, 40),
            expiry: NOW,
            hostname: None,
        },
    );
    let discover = frame_from(client(), &build_discover_message(client(), 1));
    match process_incoming_packet(&discover, &config, &mut leases, NOW - 1) {
        ServerAction::Send(reply) => assert_eq!(
            read_reply(&config, &reply).yiaddr,
            Ipv4Addr::new(192, 168, 1, 40)
        ),
        _ => panic!("the address is offered again"),
    }
    leases.insert(
        client(),
        ClientLease {
            ip: Ipv4Addr::new(192, 168, 1, 40),
            expiry: NOW,
            hostname: None,
        },
    );
    assert!(matches!(
        process_incoming_packet(&discover, &config, &mut leases, NOW),
        ServerAction::ProbeOffer { ip, .. } if ip == Ipv4Addr::new(192, 168, 1, 2)
    ));
}

#[test]
fn no_frame_and_no_probe_gives_an_address_twice() {
    let config = make_config("192.168.1.1/24");
    let mut leases = LeaseTable::new();
    let first = MacAddr::new(0x02, 0, 0, 0, 0, 1);
    let second = MacAddr::new(0x02, 0, 0, 0, 0, 2);
    let clients = [first, second];
    for mac in clients {
        let discover = frame_from(mac, &build_discover_message(mac, 1));
        match process_incoming_packet(&discover, &config, &mut leases, NOW) {
            ServerAction::ProbeOffer {
                dhcp,
                client_mac,
                ip,
            } => {
                continue_dhcp_discover(&config, dhcp, client_mac, ip, &mut leases, NOW);
            }
            _ => panic!("a candidate is probed"),
        }
    }
    assert_eq!(
        live_addresses(&leases, &clients, NOW),
        vec![Ipv4Addr::new(192, 168, 1, 2), Ipv4Addr::new(192, 168, 1, 3)]
    );

    let mut request = build_discover_message(second, 2);
    request.insert(OPT_MESSAGE_TYPE, OptionValue::Kind(DHCP_REQUEST));
    request.insert(
        OPT_REQUESTED_IP,
        OptionValue::Address(Ipv4Addr::new(192, 168, 1, 2)),
    );
    let frame = frame_from(second, &request);
    match process_incoming_packet(&frame, &config, &mut leases, NOW) {
        ServerAction::Send(reply) => {
            assert_eq!(read_reply(&config, &reply).message_type(), Some(DHCP_NAK));
        }
        _ => panic!("the request is refused"),
    }
    assert_eq!(
        live_addresses(&leases, &clients, NOW),
        vec![Ipv4Addr::new(192, 168, 1, 2), Ipv4Addr::new(192, 168, 1, 3)]
    );
}
