use trimrouter::addr::{Ipv4Addr, MacAddr};
use trimrouter::dhcp::{
    DhcpMessage, OptionValue, BOOT_REQUEST, DHCP_ACK, DHCP_DECLINE, DHCP_DISCOVER, DHCP_INFORM,
    DHCP_NAK, DHCP_OFFER, DHCP_RELEASE, DHCP_REQUEST, OPT_DOMAIN_NAME_SERVER, OPT_LEASE_TIME,
    OPT_MESSAGE_TYPE, OPT_PARAMETER_REQUEST_LIST, OPT_REQUESTED_IP, OPT_ROUTER,
    OPT_SERVER_IDENTIFIER, OPT_SUBNET_MASK,
};
use trimrouter::dhcp_client::{
    build_discover_message, build_request_message, calculate_next_delay, calculate_renewal_params,
    handle_ack_result, lease_message, next_action, on_message, on_timeout, parse_ack_nak,
    parse_lease_options, parse_offer, start_discover, ClientAction, ClientPhase, DhcpAck,
    DhcpError, DhcpOffer, MessageOutcome, ParseAckResult, BOUND_HEARTBEAT_INTERVAL_SECS,
    DEFAULT_LEASE_SECS, INITIAL_RETRY_DELAY_SECS, MAX_RETRY_DELAY_SECS,
};
use trimrouter::ipc::DhcpClientToParentMsg;

const SECOND: u64 = 1_000_000_000;

fn mock_server_ip() -> Ipv4Addr {
    Ipv4Addr::new(10, 0, 2, 2)
}

fn mock_client_ip() -> Ipv4Addr {
    Ipv4Addr::new(10, 0, 2, 15)
}

fn default_mask() -> Ipv4Addr {
    Ipv4Addr::new(255, 255, 255, 0)
}

fn dns_ip_1() -> Ipv4Addr {
    Ipv4Addr::new(8, 8, 8, 8)
}

fn dns_ip_2() -> Ipv4Addr {
    Ipv4Addr::new(8, 8, 4, 4)
}

fn message(xid: u32, kind: u8) -> DhcpMessage {
    let mut msg = DhcpMessage::new();
    msg.xid = xid;
    msg.insert(OPT_MESSAGE_TYPE, OptionValue::Kind(kind));
    msg
}

fn granted_ack(msg: &DhcpMessage, xid: u32) -> DhcpAck {
    match parse_ack_nak(msg, xid) {
        ParseAckResult::Ack(ack) => ack,
        _ => panic!("Expected Ack"),
    }
}

fn offer_with_server_id() {
    let mut msg = message(0x12345678, DHCP_OFFER);
    msg.insert(OPT_SERVER_IDENTIFIER, OptionValue::Address(mock_server_ip()));
    msg.yiaddr = mock_client_ip();

    let res = parse_offer(&msg, 0x12345678).unwrap();
    assert_eq!(res.offered_ip, mock_client_ip());
    assert_eq!(res.server_ip, Some(mock_server_ip()));
}

fn offer_of_other_exchange() {
    let msg = message(0x11111111, DHCP_OFFER);

    let res = parse_offer(&msg, 0x22222222);
    assert!(res.is_none());
}

fn offer_without_server_id() {
    let mut msg = message(0x12345678, DHCP_OFFER);
    msg.yiaddr = mock_client_ip();

    let res = parse_offer(&msg, 0x12345678).unwrap();
    assert_eq!(res.offered_ip, mock_client_ip());
    assert_eq!(res.server_ip, None);
}

fn full_ack() {
    let mut msg = message(0xabcdef, DHCP_ACK);
    msg.insert(OPT_SUBNET_MASK, OptionValue::Address(default_mask()));
    msg.insert(OPT_ROUTER, OptionValue::Addresses(vec![mock_server_ip()]));
    msg.insert(
        OPT_DOMAIN_NAME_SERVER,
        OptionValue::Addresses(vec![dns_ip_1(), dns_ip_2()]),
    );
    msg.insert(OPT_LEASE_TIME, OptionValue::Seconds(1800));
    msg.insert(OPT_SERVER_IDENTIFIER, OptionValue::Address(mock_server_ip()));
    msg.yiaddr = mock_client_ip();

    let ack = granted_ack(&msg, 0xabcdef);
    assert_eq!(ack.ip, mock_client_ip());
    assert_eq!(ack.mask, default_mask());
    assert_eq!(ack.gateway, Some(mock_server_ip()));
    assert_eq!(ack.dns_servers, vec![dns_ip_1(), dns_ip_2()]);
    assert_eq!(ack.lease_secs, 1800);
    assert_eq!(ack.server_ip, Some(mock_server_ip()));
}

fn nak() {
    let msg = message(0x9999, DHCP_NAK);

    let res = parse_ack_nak(&msg, 0x9999);
    assert!(matches!(res, ParseAckResult::Nak));
}

fn lease_options_of_bare_ack() {
    let mut msg = DhcpMessage::new();
    msg.insert(OPT_MESSAGE_TYPE, OptionValue::Kind(DHCP_ACK));

    let opts = parse_lease_options(&msg);
    assert_eq!(opts.mask, default_mask());
    assert_eq!(opts.gateway, None);
    assert!(opts.dns_servers.is_empty());
    assert_eq!(opts.lease_secs, DEFAULT_LEASE_SECS);
    assert_eq!(opts.lease_secs, 3600);
}

#[test]
fn worker_test_parse_offer_valid() {
    offer_with_server_id();
}

#[test]
fn dhcp_client_test_parse_offer_valid() {
    offer_with_server_id();
}

#[test]
fn worker_test_parse_offer_mismatched_xid() {
    offer_of_other_exchange();
}

#[test]
fn dhcp_client_test_parse_offer_mismatched_xid() {
    offer_of_other_exchange();
}

#[test]
fn worker_test_parse_offer_missing_server_id() {
    offer_without_server_id();
}

#[test]
fn dhcp_client_test_parse_offer_missing_server_id() {
    offer_without_server_id();
}

#[test]
fn worker_test_parse_ack_valid() {
    full_ack();
}

#[test]
fn dhcp_client_test_parse_ack_valid() {
    full_ack();
}

#[test]
fn worker_test_parse_nak() {
    nak();
}

#[test]
fn dhcp_client_test_parse_nak() {
    nak();
}

#[test]
fn worker_test_parse_lease_options_missing_fields() {
    lease_options_of_bare_ack();
}

#[test]
fn dhcp_client_test_parse_lease_options_missing_fields() {
    lease_options_of_bare_ack();
}

#[test]
fn test_parse_offer_wrong_msg_type_returns_none() {
    let mut msg = message(0x12345678, DHCP_DISCOVER);
    msg.yiaddr = mock_client_ip();

    let res = parse_offer(&msg, 0x12345678);
    assert!(res.is_none());
}

#[test]
fn test_parse_ack_nak_mismatched_xid_returns_none() {
    let msg = message(0x1111, DHCP_ACK);

    let res = parse_ack_nak(&msg, 0x2222);
    assert!(matches!(res, ParseAckResult::Unrelated));
}

#[test]
fn test_parse_ack_nak_wrong_message_type_returns_none() {
    let msg = message(0x3333, DHCP_DISCOVER);

    let res = parse_ack_nak(&msg, 0x3333);
    assert!(matches!(res, ParseAckResult::Unrelated));
}

#[test]
fn test_parse_ack_nak_missing_message_type_returns_none() {
    let mut msg = DhcpMessage::new();
    msg.xid = 0x4444;

    let res = parse_ack_nak(&msg, 0x4444);
    assert!(matches!(res, ParseAckResult::Unrelated));
}

#[test]
fn test_build_discover_message() {
    let mac = MacAddr::new(0x00, 0x11, 0x22, 0x33, 0x44, 0x55);
    let xid = 0xabcdef01;
    let msg = build_discover_message(mac, xid);

    assert_eq!(msg.opcode, BOOT_REQUEST);
    assert_eq!(msg.xid, xid);
    assert_eq!(msg.chaddr, vec![0x00, 0x11, 0x22, 0x33, 0x44, 0x55]);
    assert!(msg.broadcast());

    assert_eq!(
        msg.option(OPT_MESSAGE_TYPE),
        Some(&OptionValue::Kind(DHCP_DISCOVER))
    );
    assert_eq!(
        msg.option(OPT_PARAMETER_REQUEST_LIST),
        Some(&OptionValue::Codes(vec![
            OPT_SUBNET_MASK,
            OPT_ROUTER,
            OPT_DOMAIN_NAME_SERVER,
        ]))
    );
}

#[test]
fn test_build_request_message_selecting() {
    let mac = MacAddr::new(0x00, 0x11, 0x22, 0x33, 0x44, 0x55);
    let xid = 0x12345678;
    let requested_ip = Ipv4Addr::new(10, 0, 2, 15);
    let server_ip = Ipv4Addr::new(10, 0, 2, 2);

    let msg = build_request_message(
        mac,
        xid,
        requested_ip,
        Some(server_ip),
        Ipv4Addr::unspecified(),
    );

    assert_eq!(msg.opcode, BOOT_REQUEST);
    assert_eq!(msg.xid, xid);
    assert_eq!(msg.ciaddr, Ipv4Addr::unspecified());
    assert_eq!(msg.chaddr, vec![0x00, 0x11, 0x22, 0x33, 0x44, 0x55]);
    assert!(msg.broadcast());

    assert_eq!(
        msg.option(OPT_MESSAGE_TYPE),
        Some(&OptionValue::Kind(DHCP_REQUEST))
    );
    assert_eq!(
        msg.option(OPT_REQUESTED_IP),
        Some(&OptionValue::Address(requested_ip))
    );
    assert_eq!(
        msg.option(OPT_SERVER_IDENTIFIER),
        Some(&OptionValue::Address(server_ip))
    );
}

#[test]
fn test_build_request_message_renewing() {
    let mac = MacAddr::new(0x00, 0x11, 0x22, 0x33, 0x44, 0x55);
    let xid = 0x87654321;
    let client_ip = Ipv4Addr::new(10, 0, 2, 15);

    let msg = build_request_message(mac, xid, client_ip, None, client_ip);

    assert_eq!(msg.opcode, BOOT_REQUEST);
    assert_eq!(msg.xid, xid);
    assert_eq!(msg.ciaddr, client_ip);
    assert_eq!(msg.chaddr, vec![0x00, 0x11, 0x22, 0x33, 0x44, 0x55]);
    assert!(!msg.broadcast());

    assert_eq!(
        msg.option(OPT_MESSAGE_TYPE),
        Some(&OptionValue::Kind(DHCP_REQUEST))
    );
    assert_eq!(msg.option(OPT_REQUESTED_IP), None);
    assert_eq!(msg.option(OPT_SERVER_IDENTIFIER), None);
}

#[test]
fn test_calculate_next_delay() {
    assert_eq!(calculate_next_delay(2), 4);
    assert_eq!(calculate_next_delay(32), 64);
    assert_eq!(calculate_next_delay(40), MAX_RETRY_DELAY_SECS);
    assert_eq!(
        calculate_next_delay(MAX_RETRY_DELAY_SECS),
        MAX_RETRY_DELAY_SECS
    );
}

#[test]
fn test_calculate_renewal_params() {
    let server_ip = Ipv4Addr::new(10, 0, 2, 2);
    let lease_secs = 3600;
    let t2_secs = 3150;

    // Renewal, unicast to the server: half of the 1350 seconds to T2.
    let (interval, dest_ip, rebinding) =
        calculate_renewal_params(1800, t2_secs, lease_secs, Some(server_ip));
    assert!(!rebinding);
    assert_eq!(dest_ip, server_ip);
    assert_eq!(interval, 675);

    // Rebinding, broadcast: half of the 400 seconds to the end.
    let (interval, dest_ip, rebinding) =
        calculate_renewal_params(3200, t2_secs, lease_secs, Some(server_ip));
    assert!(rebinding);
    assert_eq!(dest_ip, Ipv4Addr::broadcast());
    assert_eq!(interval, 200);

    // Less than a minute to T2.
    let (interval, _, _) = calculate_renewal_params(3100, t2_secs, lease_secs, Some(server_ip));
    assert_eq!(interval, 25);
}

#[test]
fn test_handle_ack_result() {
    let ack_data = DhcpAck {
        ip: mock_client_ip(),
        mask: default_mask(),
        gateway: Some(mock_server_ip()),
        dns_servers: vec![],
        lease_secs: 1800,
        server_ip: Some(mock_server_ip()),
    };

    let ok_res = handle_ack_result(ParseAckResult::Ack(ack_data.clone()));
    assert!(matches!(ok_res, Some(Ok(_))));
    assert_eq!(ok_res, Some(Ok(ack_data)));

    let nak_res = handle_ack_result(ParseAckResult::Nak);
    assert!(matches!(nak_res, Some(Err(DhcpError::Nak))));

    let none_res = handle_ack_result(ParseAckResult::Unrelated);
    assert!(none_res.is_none());
}

#[test]
fn test_parse_ack_empty_router_option_returns_none_gateway() {
    let mut msg = message(0x1234, DHCP_ACK);
    msg.insert(OPT_ROUTER, OptionValue::Addresses(vec![]));

    let ack = granted_ack(&msg, 0x1234);
    assert_eq!(ack.gateway, None);
}

#[test]
fn test_parse_ack_multiple_routers_takes_first() {
    let mut msg = message(0x1234, DHCP_ACK);
    let router1 = Ipv4Addr::new(10, 0, 2, 1);
    let router2 = Ipv4Addr::new(10, 0, 2, 254);
    msg.insert(OPT_ROUTER, OptionValue::Addresses(vec![router1, router2]));

    let ack = granted_ack(&msg, 0x1234);
    assert_eq!(ack.gateway, Some(router1));
}

#[test]
fn test_parse_ack_extreme_lease_times() {
    let mut msg_zero = message(0x1000, DHCP_ACK);
    msg_zero.insert(OPT_LEASE_TIME, OptionValue::Seconds(0));
    assert_eq!(granted_ack(&msg_zero, 0x1000).lease_secs, 0);

    let mut msg_max = message(0x2000, DHCP_ACK);
    msg_max.insert(OPT_LEASE_TIME, OptionValue::Seconds(u32::MAX));
    assert_eq!(granted_ack(&msg_max, 0x2000).lease_secs, u32::MAX);
}

#[test]
fn test_parse_offer_special_yiaddr() {
    let mut msg_zero = message(0x5555, DHCP_OFFER);
    msg_zero.yiaddr = Ipv4Addr::unspecified();

    let res = parse_offer(&msg_zero, 0x5555).unwrap();
    assert_eq!(res.offered_ip, Ipv4Addr::unspecified());

    let mut msg_bcast = message(0x6666, DHCP_OFFER);
    msg_bcast.yiaddr = Ipv4Addr::broadcast();

    let res_bcast = parse_offer(&msg_bcast, 0x6666).unwrap();
    assert_eq!(res_bcast.offered_ip, Ipv4Addr::broadcast());
}

#[test]
fn test_parse_ack_nak_unexpected_message_types_returns_none() {
    for unexpected_type in [DHCP_DECLINE, DHCP_RELEASE, DHCP_INFORM] {
        let msg = message(0x7777, unexpected_type);

        let res = parse_ack_nak(&msg, 0x7777);
        assert!(matches!(res, ParseAckResult::Unrelated));
    }
}

#[test]
fn test_calculate_renewal_params_edge_cases() {
    // A lease of no time at all.
    let (interval, _dest, rebinding) = calculate_renewal_params(0, 0, 0, None);
    assert!(rebinding);
    assert_eq!(interval, 1);

    // A very short lease: half of the six seconds to T2.
    let (interval, _dest, rebinding) = calculate_renewal_params(2, 8, 10, None);
    assert!(!rebinding);
    assert_eq!(interval, 3);
    assert!(
        interval < 6,
        "Retry interval must be strictly less than remaining time"
    );

    // Rebinding with one second left.
    let (interval, dest, rebinding) = calculate_renewal_params(9, 8, 10, None);
    assert!(rebinding);
    assert_eq!(dest, Ipv4Addr::broadcast());
    assert_eq!(interval, 1);

    // The longest lease.
    let t2_max = (u32::MAX as f64 * 0.875) as u32;
    let remaining_to_t2 = t2_max - 100;
    let (interval, dest, rebinding) =
        calculate_renewal_params(100, t2_max, u32::MAX, Some(mock_server_ip()));
    assert!(!rebinding);
    assert_eq!(dest, mock_server_ip());
    assert_eq!(interval, remaining_to_t2 / 2);
}

#[test]
fn test_calculate_next_delay_bounds() {
    assert_eq!(calculate_next_delay(4), 8);
    assert_eq!(calculate_next_delay(8), 16);
    assert_eq!(calculate_next_delay(16), 32);
    assert_eq!(calculate_next_delay(32), 64);
    assert_eq!(calculate_next_delay(64), 64);
    assert_eq!(calculate_next_delay(100), 64);
}

#[test]
fn test_build_discover_message_structure() {
    let mac = MacAddr::new(0x00, 0x11, 0x22, 0x33, 0x44, 0x55);
    let msg = build_discover_message(mac, 0x12345678);

    assert_eq!(msg.opcode, BOOT_REQUEST);
    assert_eq!(msg.xid, 0x12345678);
    assert!(msg.broadcast());
    assert_eq!(
        msg.option(OPT_MESSAGE_TYPE),
        Some(&OptionValue::Kind(DHCP_DISCOVER))
    );
}

#[test]
fn test_build_request_message_selecting_and_renewing() {
    let mac = MacAddr::new(0x00, 0x11, 0x22, 0x33, 0x44, 0x55);
    let req_ip = Ipv4Addr::new(192, 168, 1, 100);
    let srv_ip = Ipv4Addr::new(192, 168, 1, 1);

    // Selecting.
    let msg_sel = build_request_message(mac, 0x1111, req_ip, Some(srv_ip), Ipv4Addr::unspecified());
    assert_eq!(msg_sel.ciaddr, Ipv4Addr::unspecified());
    assert_eq!(
        msg_sel.option(OPT_REQUESTED_IP),
        Some(&OptionValue::Address(req_ip))
    );
    assert_eq!(
        msg_sel.option(OPT_SERVER_IDENTIFIER),
        Some(&OptionValue::Address(srv_ip))
    );
    assert!(msg_sel.broadcast());

    // Renewing.
    let msg_ren = build_request_message(mac, 0x2222, req_ip, Some(srv_ip), req_ip);
    assert_eq!(msg_ren.ciaddr, req_ip);
    assert_eq!(msg_ren.option(OPT_REQUESTED_IP), None);
    assert_eq!(msg_ren.option(OPT_SERVER_IDENTIFIER), None);
    assert!(!msg_ren.broadcast());
}

#[test]
fn test_parse_offer_and_ack_edge_cases() {
    let mut msg = DhcpMessage::new();
    msg.xid = 0x5555;
    msg.yiaddr = Ipv4Addr::new(10, 0, 2, 15);

    // Another exchange.
    assert!(parse_offer(&msg, 0x9999).is_none());

    // No message type.
    assert!(parse_offer(&msg, 0x5555).is_none());

    // An offer without a server identifier.
    msg.insert(OPT_MESSAGE_TYPE, OptionValue::Kind(DHCP_OFFER));
    let offer = parse_offer(&msg, 0x5555).expect("Valid offer");
    assert_eq!(offer.offered_ip, Ipv4Addr::new(10, 0, 2, 15));
    assert_eq!(offer.server_ip, None);

    // A refusal.
    msg.insert(OPT_MESSAGE_TYPE, OptionValue::Kind(DHCP_NAK));
    assert!(matches!(parse_ack_nak(&msg, 0x5555), ParseAckResult::Nak));
}

fn client_mac() -> MacAddr {
    MacAddr::new(0x02, 0, 0, 0, 0, 0x2a)
}

fn short_ack() -> DhcpAck {
    DhcpAck {
        ip: mock_client_ip(),
        mask: default_mask(),
        gateway: Some(mock_server_ip()),
        server_ip: Some(mock_server_ip()),
        lease_secs: 3600,
        dns_servers: vec![dns_ip_1()],
    }
}

#[test]
fn exchange_runs_from_discovery_to_a_lease() {
    let phase = start_discover();
    let xid = match phase {
        ClientPhase::Discover { xid, retry_delay_secs } => {
            assert_eq!(retry_delay_secs, INITIAL_RETRY_DELAY_SECS);
            xid
        }
        _ => panic!("the client starts by looking for servers"),
    };
    let (phase, action) = next_action(phase, client_mac(), 0);
    match action {
        ClientAction::SendAndListenAbout { message, dest_ip, listen_secs } => {
            assert_eq!(message.message_type(), Some(DHCP_DISCOVER));
            assert_eq!(message.xid, xid);
            assert_eq!(dest_ip, Ipv4Addr::broadcast());
            assert_eq!(listen_secs, 4);
        }
        _ => panic!("a discovery is sent"),
    }

    let mut offer = message(xid, DHCP_OFFER);
    offer.yiaddr = mock_client_ip();
    offer.insert(OPT_SERVER_IDENTIFIER, OptionValue::Address(mock_server_ip()));
    let (phase, outcome) = on_message(phase, &offer, SECOND);
    assert!(matches!(outcome, MessageOutcome::Advanced));

    let (phase, action) = next_action(phase, client_mac(), SECOND);
    let request_xid = match action {
        ClientAction::SendAndListenAbout { message, .. } => {
            assert_eq!(message.message_type(), Some(DHCP_REQUEST));
            assert_eq!(message.requested_ip(), Some(mock_client_ip()));
            message.xid
        }
        _ => panic!("a request is sent"),
    };

    let mut ack = message(request_xid, DHCP_ACK);
    ack.yiaddr = mock_client_ip();
    ack.insert(OPT_LEASE_TIME, OptionValue::Seconds(3600));
    let (phase, outcome) = on_message(phase, &ack, 2 * SECOND);
    assert!(matches!(outcome, MessageOutcome::Granted));
    match phase {
        ClientPhase::Bound { ack, bound_at } => {
            assert_eq!(ack.ip, mock_client_ip());
            assert_eq!(bound_at, 2 * SECOND);
        }
        _ => panic!("the client uses the address"),
    }
}

#[test]
fn silence_lengthens_the_wait() {
    let phase = ClientPhase::Discover { xid: 7, retry_delay_secs: 4 };
    match on_timeout(phase) {
        ClientPhase::Discover { retry_delay_secs, .. } => assert_eq!(retry_delay_secs, 8),
        _ => panic!("the client goes on looking"),
    }
}

#[test]
fn refused_request_fails() {
    let offer = DhcpOffer { offered_ip: mock_client_ip(), server_ip: None };
    let phase = ClientPhase::Request { xid: 9, offer, retry_delay_secs: 4 };
    let (_, outcome) = on_message(phase, &message(9, DHCP_NAK), SECOND);
    assert!(matches!(outcome, MessageOutcome::Failed(DhcpError::Nak)));
}

#[test]
fn lease_is_renewed_then_rebound_then_given_up() {
    let bound = ClientPhase::Bound { ack: short_ack(), bound_at: 0 };
    let (bound, action) = next_action(bound, client_mac(), 10 * SECOND);
    assert!(matches!(action, ClientAction::Sleep { secs } if secs == BOUND_HEARTBEAT_INTERVAL_SECS));

    let (renew, _) = next_action(bound, client_mac(), 1800 * SECOND);
    let (_, action) = next_action(renew, client_mac(), 1800 * SECOND);
    match action {
        ClientAction::SendAndListen { message, dest_ip, listen_secs } => {
            assert_eq!(message.ciaddr, mock_client_ip());
            assert_eq!(dest_ip, mock_server_ip());
            assert_eq!(listen_secs, 675);
        }
        _ => panic!("the client asks its server for more time"),
    }

    let renew = ClientPhase::Renew { ack: short_ack(), bound_at: 0, xid: 1, sent_at: None };
    let (_, action) = next_action(renew, client_mac(), 3200 * SECOND);
    match action {
        ClientAction::SendAndListen { dest_ip, listen_secs, .. } => {
            assert_eq!(dest_ip, Ipv4Addr::broadcast());
            assert_eq!(listen_secs, 200);
        }
        _ => panic!("the client asks any server for more time"),
    }

    let renew = ClientPhase::Renew { ack: short_ack(), bound_at: 0, xid: 1, sent_at: None };
    let (_, action) = next_action(renew, client_mac(), 3600 * SECOND);
    assert!(matches!(action, ClientAction::Fail(DhcpError::Protocol(_))));
}

#[test]
fn granted_lease_is_handed_to_the_parent() {
    assert_eq!(
        lease_message(&short_ack()),
        DhcpClientToParentMsg::ApplyWanLease {
            ip_address: mock_client_ip(),
            prefix_len: 24,
            gateway: mock_server_ip(),
            dns_servers: vec![dns_ip_1()],
        }
    );

    let mut odd = short_ack();
    odd.mask = Ipv4Addr::new(255, 0, 255, 0);
    odd.gateway = None;
    assert_eq!(
        lease_message(&odd),
        DhcpClientToParentMsg::ApplyWanLease {
            ip_address: mock_client_ip(),
            prefix_len: 24,
            gateway: Ipv4Addr::unspecified(),
            dns_servers: vec![dns_ip_1()],
        }
    );
}
