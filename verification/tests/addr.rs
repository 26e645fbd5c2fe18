use trimrouter::addr::{
    mac_from_slice, mask_to_prefix_len, prefix_len_to_mask, Ipv4Addr, Ipv4Net, MacAddr,
    RouterError,
};
use trimrouter::text::{append_decimal, append_signed_decimal, CleanOption};

#[test]
fn test_mask_to_prefix_len_valid() {
    assert_eq!(
        mask_to_prefix_len(Ipv4Addr::new(255, 255, 255, 0)).unwrap(),
        24
    );
    assert_eq!(
        mask_to_prefix_len(Ipv4Addr::new(255, 255, 255, 255)).unwrap(),
        32
    );
    assert_eq!(mask_to_prefix_len(Ipv4Addr::new(0, 0, 0, 0)).unwrap(), 0);
}

#[test]
fn test_mask_to_prefix_len_invalid() {
    assert!(mask_to_prefix_len(Ipv4Addr::new(255, 255, 255, 10)).is_err());
    assert!(mask_to_prefix_len(Ipv4Addr::new(255, 0, 255, 0)).is_err());
}

#[test]
fn masks_and_prefix_lengths_go_both_ways() {
    for len in 0..=32u8 {
        assert_eq!(mask_to_prefix_len(prefix_len_to_mask(len)), Ok(len));
    }
    assert_eq!(prefix_len_to_mask(8), Ipv4Addr::new(255, 0, 0, 0));
    assert_eq!(prefix_len_to_mask(33), Ipv4Addr::unspecified());
}

#[test]
fn errors_are_put_in_words() {
    let mask = mask_to_prefix_len(Ipv4Addr::new(255, 0, 255, 0)).unwrap_err();
    assert_eq!(mask, RouterError::NonContiguousMask(Ipv4Addr::new(255, 0, 255, 0)));
    assert_eq!(
        mask.message(),
        "Invalid non-contiguous subnet mask: 255.0.255.0"
    );
    let mac = mac_from_slice(&[1, 2, 3]).unwrap_err();
    assert_eq!(mac, RouterError::InvalidMacLength(3));
    assert_eq!(
        mac.message(),
        "Invalid MAC address length: expected 6, found 3"
    );
}

#[test]
fn mac_address_is_read_from_six_octets() {
    assert_eq!(
        mac_from_slice(&[1, 2, 3, 4, 5, 6]),
        Ok(MacAddr::new(1, 2, 3, 4, 5, 6))
    );
}

#[test]
fn mac_addresses_and_numbers_go_both_ways() {
    let mac = MacAddr::new(0x52, 0x54, 0x00, 0x12, 0x34, 0x56);
    assert_eq!(mac.to_number(), 0x5254_0012_3456);
    assert_eq!(MacAddr::from_number(0x5254_0012_3456), mac);
}

#[test]
fn subnet_is_read_and_measured() {
    let net = Ipv4Net::parse("192.168.1.77/24").unwrap();
    assert_eq!(net.addr, Ipv4Addr::new(192, 168, 1, 77));
    assert_eq!(net.prefix_len, 24);
    assert_eq!(net.network(), Ipv4Addr::new(192, 168, 1, 0));
    assert_eq!(net.broadcast(), Ipv4Addr::new(192, 168, 1, 255));
    assert!(net.contains(Ipv4Addr::new(192, 168, 1, 255)));
    assert!(!net.contains(Ipv4Addr::new(192, 168, 2, 0)));
    assert_eq!(net.host(0), Some(Ipv4Addr::new(192, 168, 1, 1)));
    assert_eq!(net.host(253), Some(Ipv4Addr::new(192, 168, 1, 254)));
    assert_eq!(net.host(254), None);
    assert!(Ipv4Net::parse("192.168.1.77/33").is_none());
    assert!(Ipv4Net::parse("nonsense").is_none());
    assert!(Ipv4Net::new(Ipv4Addr::new(10, 0, 0, 1), 33).is_none());
}

#[test]
fn smallest_subnets_have_no_reserved_addresses() {
    let pair = Ipv4Net::parse("10.0.0.2/31").unwrap();
    assert_eq!(pair.host(0), Some(Ipv4Addr::new(10, 0, 0, 2)));
    assert_eq!(pair.host(1), Some(Ipv4Addr::new(10, 0, 0, 3)));
    assert_eq!(pair.host(2), None);
    let single = Ipv4Net::parse("10.0.0.2/32").unwrap();
    assert_eq!(single.host(0), Some(Ipv4Addr::new(10, 0, 0, 2)));
    assert_eq!(single.host(1), None);
}

#[test]
fn numbers_are_written_in_decimal() {
    let mut text = "n=".to_string();
    append_decimal(&mut text, 0);
    append_decimal(&mut text, 1907);
    assert_eq!(text, "n=01907");
    let mut text = String::new();
    append_signed_decimal(&mut text, i64::MIN);
    assert_eq!(text, i64::MIN.to_string());
}

#[test]
fn optional_addresses_are_quoted() {
    assert_eq!(CleanOption(&Some(Ipv4Addr::new(10, 0, 2, 255))).text(), "\"10.0.2.255\"");
    assert_eq!(CleanOption::<Ipv4Addr>(&None).text(), "None");
}
