use trimrouter::addr::{Ipv4Addr, MacAddr};
use trimrouter::dhcp::{
    parse_dhcp_payload, DhcpMessage, OptionValue, DHCP_REQUEST, OPT_DOMAIN_NAME_SERVER,
    OPT_HOSTNAME, OPT_LEASE_TIME, OPT_MESSAGE_TYPE, OPT_REQUESTED_IP, OPT_ROUTER,
    OPT_SERVER_IDENTIFIER, OPT_SUBNET_MASK,
};
use trimrouter::option_lengths::tidy_message;
use trimrouter::packet::{build_raw_packet, strip_udp_headers, PayloadTooLong, UdpRoute};

#[test]
fn test_parse_dhcp_payload_truncated_packet_returns_none() {
    let truncated = [0u8; 10];
    assert!(parse_dhcp_payload(&truncated, 67).is_none());
}

#[test]
fn test_parse_dhcp_payload_non_ipv4_returns_none() {
    let mut frame = vec![0u8; 60];
    frame[12] = 0x08;
    frame[13] = 0x06; // ARP
    assert!(parse_dhcp_payload(&frame, 67).is_none());
}

#[test]
fn test_parse_dhcp_payload_non_udp_returns_none() {
    let mut frame = vec![0u8; 60];
    frame[12] = 0x08;
    frame[13] = 0x00;
    frame[14] = 0x45;
    frame[23] = 6; // TCP
    assert!(parse_dhcp_payload(&frame, 67).is_none());
}

#[test]
fn test_parse_dhcp_payload_wrong_destination_port_returns_none() {
    let mut frame = vec![0u8; 60];
    frame[12] = 0x08;
    frame[13] = 0x00;
    frame[14] = 0x45;
    frame[23] = 17;
    frame[36] = 0x00;
    frame[37] = 80;
    assert!(parse_dhcp_payload(&frame, 67).is_none());
}

#[test]
fn test_parse_dhcp_payload_truncated_ip_header() {
    let mut frame = vec![0u8; 24];
    frame[12] = 0x08;
    frame[13] = 0x00;
    frame[14] = 0x45;
    assert!(parse_dhcp_payload(&frame, 68).is_none());
}

#[test]
fn test_parse_dhcp_payload_truncated_udp_header() {
    let mut frame = vec![0u8; 38];
    frame[12] = 0x08;
    frame[13] = 0x00;
    frame[14] = 0x45;
    frame[23] = 17;
    assert!(parse_dhcp_payload(&frame, 68).is_none());
}

#[test]
fn test_parse_dhcp_payload_truncated_dhcp_body() {
    let mut frame = vec![0u8; 52];
    frame[12] = 0x08;
    frame[13] = 0x00;
    frame[14] = 0x45;
    frame[23] = 17;
    frame[36] = 0x00;
    frame[37] = 68;
    assert!(parse_dhcp_payload(&frame, 68).is_none());
}

#[test]
fn test_parse_dhcp_payload_vlan_tagged_packet() {
    let mut frame = vec![0u8; 60];
    frame[12] = 0x81;
    frame[13] = 0x00;
    assert!(parse_dhcp_payload(&frame, 68).is_none());
}

#[test]
fn test_parse_dhcp_payload_ipv6_packet() {
    let mut frame = vec![0u8; 60];
    frame[12] = 0x86;
    frame[13] = 0xDD;
    assert!(parse_dhcp_payload(&frame, 68).is_none());
}

fn route() -> UdpRoute {
    UdpRoute {
        src_mac: MacAddr::new(2, 0, 0, 0, 0, 1),
        dst_mac: MacAddr::new(2, 0, 0, 0, 0, 2),
        src_ip: Ipv4Addr::new(192, 168, 1, 1),
        dst_ip: Ipv4Addr::new(192, 168, 1, 199),
        src_port: 67,
        dst_port: 68,
    }
}

#[test]
fn frame_has_the_expected_bytes() {
    let frame = build_raw_packet(&route(), &[0xaa, 0xbb]).unwrap();
    assert_eq!(
        frame,
        vec![
            2, 0, 0, 0, 0, 2, 2, 0, 0, 0, 0, 1, 0x08, 0x00, // Ethernet
            0x45, 0x00, 0x00, 0x1e, 0x00, 0x00, 0x40, 0x00, 0x40, 0x11, 0xb6, 0xb6, // IPv4
            192, 168, 1, 1, 192, 168, 1, 199, // IPv4 addresses
            0, 67, 0, 68, 0, 10, 0, 0, // UDP
            0xaa, 0xbb,
        ]
    );
}

#[test]
fn ipv4_checksum_agrees_with_pnet() {
    let frame = build_raw_packet(&route(), &[1, 2, 3]).unwrap();
    let packet = pnet::packet::ipv4::Ipv4Packet::new(&frame[14..]).unwrap();
    assert_eq!(packet.get_checksum(), pnet::packet::ipv4::checksum(&packet));
}

#[test]
fn payload_is_read_back_at_its_port_only() {
    let frame = build_raw_packet(&route(), &[1, 2, 3]).unwrap();
    assert_eq!(strip_udp_headers(&frame, 68), Some(vec![1, 2, 3]));
    assert_eq!(strip_udp_headers(&frame, 67), None);
}

#[test]
fn payload_may_be_too_long() {
    assert_eq!(
        build_raw_packet(&route(), &vec![0u8; 65508]),
        Err(PayloadTooLong { len: 65508 })
    );
    assert_eq!(
        build_raw_packet(&route(), &vec![0u8; 65507]).unwrap().len(),
        65549
    );
}

#[test]
fn message_is_read_back_from_its_bytes() {
    let mut msg = DhcpMessage::new();
    msg.xid = 0xdead_beef;
    msg.flags = 0x8000;
    msg.hlen = 6;
    msg.chaddr = vec![2, 0, 0, 0, 0, 1];
    msg.ciaddr = Ipv4Addr::new(1, 2, 3, 4);
    msg.yiaddr = Ipv4Addr::new(5, 6, 7, 8);
    msg.siaddr = Ipv4Addr::new(9, 10, 11, 12);
    msg.giaddr = Ipv4Addr::new(13, 14, 15, 16);
    msg.insert(OPT_MESSAGE_TYPE, OptionValue::Kind(DHCP_REQUEST));
    msg.insert(OPT_REQUESTED_IP, OptionValue::Address(Ipv4Addr::new(10, 0, 0, 1)));
    msg.insert(OPT_SERVER_IDENTIFIER, OptionValue::Address(Ipv4Addr::new(10, 0, 0, 2)));
    msg.insert(OPT_SUBNET_MASK, OptionValue::Address(Ipv4Addr::new(255, 0, 0, 0)));
    msg.insert(OPT_LEASE_TIME, OptionValue::Seconds(86_400));
    msg.insert(OPT_HOSTNAME, OptionValue::Text("laptop".to_string()));
    msg.insert(
        OPT_ROUTER,
        OptionValue::Addresses(vec![Ipv4Addr::new(10, 0, 0, 1), Ipv4Addr::new(10, 0, 0, 3)]),
    );
    msg.insert(
        OPT_DOMAIN_NAME_SERVER,
        OptionValue::Addresses(vec![Ipv4Addr::new(8, 8, 8, 8)]),
    );

    let read = DhcpMessage::decode(&msg.encode()).unwrap();
    assert_eq!(read.opcode, msg.opcode);
    assert_eq!(read.xid, msg.xid);
    assert_eq!(read.flags, msg.flags);
    assert_eq!(read.chaddr, msg.chaddr);
    assert_eq!(read.ciaddr, msg.ciaddr);
    assert_eq!(read.yiaddr, msg.yiaddr);
    assert_eq!(read.siaddr, msg.siaddr);
    assert_eq!(read.giaddr, msg.giaddr);
    for code in [
        OPT_MESSAGE_TYPE,
        OPT_REQUESTED_IP,
        OPT_SERVER_IDENTIFIER,
        OPT_SUBNET_MASK,
        OPT_LEASE_TIME,
        OPT_HOSTNAME,
        OPT_ROUTER,
        OPT_DOMAIN_NAME_SERVER,
    ] {
        assert_eq!(read.option(code), msg.option(code));
    }
}

#[test]
fn later_option_replaces_an_earlier_one() {
    let mut msg = DhcpMessage::new();
    msg.insert(OPT_LEASE_TIME, OptionValue::Seconds(1));
    msg.insert(OPT_LEASE_TIME, OptionValue::Seconds(2));
    assert_eq!(msg.option(OPT_LEASE_TIME), Some(&OptionValue::Seconds(2)));
    assert_eq!(msg.option(OPT_HOSTNAME), None);
}

#[test]
fn short_buffers_hold_no_message() {
    assert!(DhcpMessage::decode(&[0u8; 239]).is_none());
}

fn message_with_options(options: &[u8]) -> Vec<u8> {
    let mut payload = vec![0u8; 240];
    payload.extend_from_slice(options);
    payload
}

/// The codes of the options that are read from these bytes.
fn codes_read(options: &[u8]) -> Vec<u8> {
    let message = DhcpMessage::decode(&message_with_options(options)).unwrap();
    message.options.iter().map(|(code, _)| *code).collect()
}

#[test]
fn options_that_are_too_long_are_read_in_part() {
    for (options, codes) in [
        (&[80u8, 1, 7, 255][..], &[80u8][..]),
        (&[80, 1, 7, 53, 1, 3, 255], &[53, 80]),
        (&[53, 1, 3, 0, 0, 80, 1, 7], &[53, 80]),
        (&[94, 4, 1, 2, 3, 4, 53, 1, 3], &[53, 94]),
        (&[152, 5, 1, 2, 3, 4, 5, 53, 1, 3, 255], &[53, 152]),
        // Two pieces of three bytes make six.
        (&[94, 3, 1, 2, 3, 94, 3, 4, 5, 6, 53, 1, 3, 255], &[53, 94]),
        // Filler keeps two options of the same code apart.
        (&[80, 1, 7, 0, 80, 2, 7, 7, 12, 1, 65], &[12, 80]),
    ] {
        assert_eq!(codes_read(options), codes);
    }
}

#[test]
fn nothing_is_read_from_an_option_that_is_too_short_on() {
    for (options, codes) in [
        (&[53u8, 1, 3, 81, 2, 0, 0, 12, 1, 65, 255][..], &[53u8][..]),
        (&[53, 1, 3, 94, 2, 1, 2, 12, 1, 65, 255], &[53]),
        (&[53, 1, 3, 155, 3, 1, 2, 3, 12, 1, 65, 255], &[53]),
        (&[81, 0, 53, 1, 3, 255], &[]),
        // The option is cut off in its second piece.
        (&[53, 1, 3, 80, 1, 7, 80, 9], &[53]),
        // What was read before stays, in its mended form.
        (&[80, 1, 7, 94, 1, 7, 53, 1, 3], &[80]),
    ] {
        assert_eq!(codes_read(options), codes);
    }
    let message =
        DhcpMessage::decode(&message_with_options(&[53, 1, 3, 94, 0, 12, 1, 65])).unwrap();
    assert_eq!(message.message_type(), Some(DHCP_REQUEST));
    assert_eq!(message.option(OPT_HOSTNAME), None);
}

#[test]
fn fitting_options_are_handed_on_as_they_are() {
    for options in [
        &[53u8, 1, 3, 80, 0, 255, 1, 2][..],
        &[94, 1, 7, 94, 2, 8, 9, 0, 0, 12],
        &[],
    ] {
        let payload = message_with_options(options);
        assert_eq!(tidy_message(&payload), payload);
    }
    let mended = tidy_message(&message_with_options(&[94, 5, 1, 2, 3, 4, 5, 80, 1, 7, 255]));
    assert_eq!(mended[240..], [94, 3, 1, 2, 3, 80, 0, 255]);
}

#[test]
fn options_of_a_right_length_are_read() {
    for options in [
        &[80u8, 0, 53, 1, 3, 255][..],
        &[53, 1, 3, 94, 3, 1, 2, 3, 255],
        &[53, 1, 3, 152, 4, 1, 2, 3, 4, 255],
        // Two times apart from each other.
        &[152, 4, 1, 2, 3, 4, 53, 1, 3, 153, 4, 1, 2, 3, 4, 255],
        // Filler, and no mark at the end.
        &[0, 0, 53, 1, 3, 0],
        // Nothing is read behind the end, or of an option that is cut off.
        &[53, 1, 3, 255, 80, 1, 7],
        &[53, 1, 3, 0, 80, 9, 7],
    ] {
        let message = DhcpMessage::decode(&message_with_options(options)).unwrap();
        assert_eq!(message.message_type(), Some(DHCP_REQUEST));
    }
}

#[test]
fn pieces_of_an_option_are_put_together() {
    let payload = message_with_options(b"\x0c\x03lap\x0c\x03top\xff");
    let message = DhcpMessage::decode(&payload).unwrap();
    assert_eq!(
        message.option(OPT_HOSTNAME),
        Some(&OptionValue::Text("laptop".to_string()))
    );
}

#[test]
fn message_takes_up_its_options_and_their_end() {
    let mut msg = DhcpMessage::new();
    assert_eq!(msg.encode().len(), 240);
    msg.insert(OPT_LEASE_TIME, OptionValue::Seconds(0x0102_0304));
    let bytes = msg.encode();
    assert_eq!(bytes[240..], [51, 4, 1, 2, 3, 4, 255]);
}
