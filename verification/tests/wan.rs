use trimrouter::addr::Ipv4Addr;
use trimrouter::dhcp_client::DhcpError;
use trimrouter::ipc::DhcpClientToParentMsg;
use trimrouter::wan::{
    apply_parent_lease, clear_parent_lease, configure_wan, deconfigure_wan, is_valid_gateway,
    run_parent_dhcp_monitor, ClientEvent, NetworkChange, ParentStep, WanLease, WanPlan,
};

#[test]
fn test_apply_and_clear_parent_lease_channel_updates() {
    let mut current = WanLease::default();
    let ip = Ipv4Addr::new(192, 168, 100, 5);
    let mask = Ipv4Addr::new(255, 255, 255, 0);
    let gw = Ipv4Addr::new(192, 168, 100, 1);
    let dns = vec![Ipv4Addr::new(1, 1, 1, 1), Ipv4Addr::new(1, 0, 0, 1)];

    assert!(apply_parent_lease(&mut current, ip, mask, gw, dns.clone()));

    assert_eq!(current.ip, Some(ip));
    assert_eq!(current.mask, Some(mask));
    assert_eq!(current.gateway, Some(gw));
    assert_eq!(current.dns_servers, dns);

    assert_eq!(clear_parent_lease(&mut current), Some((ip, mask)));
    assert_eq!(current, WanLease::default());
}

#[test]
fn test_interface_not_found_errors() {
    let ip = Ipv4Addr::new(10, 0, 0, 10);
    let mask = Ipv4Addr::new(255, 255, 255, 0);
    let gw = Some(Ipv4Addr::new(10, 0, 0, 1));

    let res_cfg = configure_wan("nonexistent_wan_999", None, ip, mask, gw);
    assert!(matches!(res_cfg, Err(DhcpError::InterfaceNotFound(_))));
    assert_eq!(
        res_cfg.unwrap_err().message(),
        "Interface not found: nonexistent_wan_999"
    );

    let res_decfg = deconfigure_wan("nonexistent_wan_999", None, mask);
    assert!(matches!(res_decfg, Err(DhcpError::InterfaceNotFound(_))));
}

#[test]
fn test_is_valid_gateway_validation() {
    let ip = Ipv4Addr::new(192, 168, 1, 100);
    let prefix_len = 24;

    assert!(is_valid_gateway(
        Ipv4Addr::new(192, 168, 1, 1),
        ip,
        prefix_len
    ));
    assert!(is_valid_gateway(
        Ipv4Addr::new(192, 168, 1, 254),
        ip,
        prefix_len
    ));

    assert!(!is_valid_gateway(
        Ipv4Addr::new(10, 0, 0, 1),
        ip,
        prefix_len
    ));
    assert!(!is_valid_gateway(
        Ipv4Addr::new(192, 168, 2, 1),
        ip,
        prefix_len
    ));

    assert!(!is_valid_gateway(Ipv4Addr::unspecified(), ip, prefix_len));
    assert!(!is_valid_gateway(Ipv4Addr::broadcast(), ip, prefix_len));
}

#[test]
fn default_route_goes_through_the_own_subnet_only() {
    let ip = Ipv4Addr::new(10, 0, 2, 15);
    let mask = Ipv4Addr::new(255, 255, 255, 0);
    let gw = Ipv4Addr::new(10, 0, 2, 2);
    assert_eq!(
        configure_wan("wan", Some(3), ip, mask, Some(gw)),
        Ok(WanPlan {
            index: 3,
            prefix_len: 24,
            default_route: Some(gw),
        })
    );
    assert_eq!(
        configure_wan("wan", Some(3), ip, mask, Some(Ipv4Addr::new(10, 0, 3, 2))),
        Ok(WanPlan {
            index: 3,
            prefix_len: 24,
            default_route: None,
        })
    );
    assert_eq!(deconfigure_wan("wan", Some(3), mask), Ok(3));
}

#[test]
fn odd_mask_is_refused_before_the_interface_is_looked_up() {
    let ip = Ipv4Addr::new(10, 0, 2, 15);
    let mask = Ipv4Addr::new(255, 0, 255, 0);
    let expected = DhcpError::Protocol("Invalid non-contiguous subnet mask: 255.0.255.0".to_string());
    assert_eq!(configure_wan("wan", None, ip, mask, None), Err(expected.clone()));
    assert_eq!(deconfigure_wan("wan", Some(1), mask), Err(expected.clone()));
    assert_eq!(
        expected.message(),
        "DHCP protocol error: Invalid non-contiguous subnet mask: 255.0.255.0"
    );
}

fn granted() -> ClientEvent {
    ClientEvent::Message(DhcpClientToParentMsg::ApplyWanLease {
        ip_address: Ipv4Addr::new(10, 0, 2, 15),
        prefix_len: 24,
        gateway: Ipv4Addr::new(10, 0, 2, 2),
        dns_servers: vec![Ipv4Addr::new(8, 8, 8, 8)],
    })
}

#[test]
fn lease_is_put_to_use_once_and_taken_off_again() {
    let mut current = WanLease::default();
    let configure = NetworkChange::Configure {
        ip: Ipv4Addr::new(10, 0, 2, 15),
        mask: Ipv4Addr::new(255, 255, 255, 0),
        gateway: Ipv4Addr::new(10, 0, 2, 2),
    };
    assert_eq!(
        run_parent_dhcp_monitor(&mut current, granted()),
        ParentStep {
            heartbeat: true,
            publish: true,
            change: configure,
            stop: false,
        }
    );
    assert_eq!(
        run_parent_dhcp_monitor(&mut current, granted()),
        ParentStep {
            heartbeat: true,
            publish: false,
            change: NetworkChange::Keep,
            stop: false,
        }
    );
    assert_eq!(
        run_parent_dhcp_monitor(
            &mut current,
            ClientEvent::Message(DhcpClientToParentMsg::ClearWanLease)
        ),
        ParentStep {
            heartbeat: true,
            publish: true,
            change: NetworkChange::Deconfigure {
                ip: Ipv4Addr::new(10, 0, 2, 15),
                mask: Ipv4Addr::new(255, 255, 255, 0),
            },
            stop: false,
        }
    );
    assert_eq!(current, WanLease::default());
}

#[test]
fn parent_follows_its_client() {
    let mut current = WanLease::default();
    let alive = run_parent_dhcp_monitor(
        &mut current,
        ClientEvent::Message(DhcpClientToParentMsg::Heartbeat),
    );
    assert!(alive.heartbeat && !alive.publish && !alive.stop);
    for gone in [ClientEvent::Closed, ClientEvent::Failed] {
        let step = run_parent_dhcp_monitor(&mut current, gone);
        assert!(step.stop && !step.heartbeat);
    }
}

#[test]
fn client_errors_are_put_in_words() {
    assert_eq!(DhcpError::Nak.message(), "DHCPNAK received");
    assert_eq!(DhcpError::Io("gone".to_string()).message(), "IO error: gone");
    assert_eq!(
        DhcpError::RtNetlink("busy".to_string()).message(),
        "Netlink error: busy"
    );
}

#[test]
fn lease_is_put_in_words() {
    assert_eq!(
        WanLease::default().text(),
        "WanLease { ip: None, mask: None, gateway: None, dns_servers: [] }"
    );
    let lease = WanLease {
        ip: Some(Ipv4Addr::new(10, 0, 2, 15)),
        mask: Some(Ipv4Addr::new(255, 255, 255, 0)),
        gateway: None,
        dns_servers: vec![Ipv4Addr::new(10, 0, 2, 3), Ipv4Addr::new(8, 8, 8, 8)],
    };
    assert_eq!(
        lease.text(),
        "WanLease { ip: \"10.0.2.15\", mask: \"255.255.255.0\", gateway: None, \
         dns_servers: [10.0.2.3, 8.8.8.8] }"
    );
}
