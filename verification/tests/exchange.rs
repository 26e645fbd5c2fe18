use trimrouter::addr::{Ipv4Addr, Ipv4Net, MacAddr};
use trimrouter::dhcp::{parse_dhcp_payload, DhcpMessage, CLIENT_PORT};
use trimrouter::dhcp_client::{
    client_frame, next_action, on_message, start_discover, ClientAction, ClientPhase, DhcpError,
    MessageOutcome,
};
use trimrouter::dhcp_server::{
    continue_dhcp_discover, continue_dhcp_request, process_incoming_packet, send_dhcp_frame, Reply,
    ServerAction, ServerConfig,
};
use trimrouter::lease_table::LeaseTable;

const SECOND: u64 = 1_000_000_000;
const NOW: u64 = 1_000_000 * SECOND;

fn mac() -> MacAddr {
    MacAddr::new(0x02, 0x11, 0x22, 0x33, 0x44, 0x55)
}

struct Server {
    config: ServerConfig,
    leases: LeaseTable,
}

impl Server {
    fn new(cidr: &str) -> Server {
        let net = Ipv4Net::parse(cidr).unwrap();
        Server {
            config: ServerConfig::new(net, MacAddr::new(0, 0, 0, 0, 0, 1)),
            leases: LeaseTable::new(),
        }
    }

    fn receive(&mut self, frame: &[u8], now: u64) -> Option<Reply> {
        match process_incoming_packet(frame, &self.config, &mut self.leases, now) {
            ServerAction::Send(reply) => Some(reply),
            ServerAction::ProbeOffer { dhcp, client_mac, ip } => {
                let leases = &mut self.leases;
                match continue_dhcp_discover(&self.config, dhcp, client_mac, ip, leases, now) {
                    ServerAction::Send(reply) => Some(reply),
                    _ => None,
                }
            }
            ServerAction::ProbeAck { dhcp, client_mac, confirmation } => {
                let leases = &mut self.leases;
                let action =
                    continue_dhcp_request(&self.config, dhcp, client_mac, confirmation, leases, now);
                match action {
                    ServerAction::Ack { reply, .. } => Some(reply),
                    _ => None,
                }
            }
            _ => None,
        }
    }

    /// What the server answers, as the client reads it.
    fn answer(&mut self, frame: &[u8], now: u64) -> Option<DhcpMessage> {
        let reply = self.receive(frame, now)?;
        let frame = send_dhcp_frame(&self.config, &reply).unwrap();
        parse_dhcp_payload(&frame, CLIENT_PORT)
    }
}

/// The frame that the client sends next.
fn sent(phase: ClientPhase, now: u64) -> (ClientPhase, Vec<u8>, Ipv4Addr) {
    let (phase, action) = next_action(phase, mac(), now);
    match action {
        ClientAction::SendAndListenAbout { message, dest_ip, .. }
        | ClientAction::SendAndListen { message, dest_ip, .. } => {
            let frame = client_frame(mac(), &message, dest_ip).unwrap();
            (phase, frame, dest_ip)
        }
        _ => panic!("a message is sent"),
    }
}

fn bound_client(server: &mut Server) -> ClientPhase {
    let (phase, frame, _) = sent(start_discover(), NOW);
    let offer = server.answer(&frame, NOW).unwrap();
    let (phase, outcome) = on_message(phase, &offer, NOW);
    assert!(matches!(outcome, MessageOutcome::Advanced));

    let (phase, frame, _) = sent(phase, NOW);
    let ack = server.answer(&frame, NOW).unwrap();
    let (phase, outcome) = on_message(phase, &ack, NOW);
    assert!(matches!(outcome, MessageOutcome::Granted));
    phase
}

#[test]
fn client_obtains_an_address_from_the_server() {
    let mut server = Server::new("192.168.7.1/24");
    match bound_client(&mut server) {
        ClientPhase::Bound { ack, bound_at } => {
            assert_eq!(bound_at, NOW);
            assert_eq!(ack.ip, Ipv4Addr::new(192, 168, 7, 2));
            assert_eq!(ack.mask, Ipv4Addr::new(255, 255, 255, 0));
            assert_eq!(ack.gateway, Some(Ipv4Addr::new(192, 168, 7, 1)));
            assert_eq!(ack.server_ip, Some(Ipv4Addr::new(192, 168, 7, 1)));
            assert_eq!(ack.lease_secs, 3600);
            assert_eq!(ack.dns_servers, vec![Ipv4Addr::new(192, 168, 7, 1)]);
        }
        _ => panic!("the client has an address"),
    }
    assert_eq!(
        server.leases.get(&mac(), NOW).unwrap().ip,
        Ipv4Addr::new(192, 168, 7, 2)
    );
}

#[test]
fn client_renews_its_address_with_the_server() {
    let mut server = Server::new("192.168.7.1/24");
    let phase = bound_client(&mut server);
    let half = NOW + 1800 * SECOND;
    let (phase, action) = next_action(phase, mac(), half);
    assert!(matches!(action, ClientAction::Proceed));
    let (phase, frame, dest_ip) = sent(phase, half);
    assert_eq!(dest_ip, Ipv4Addr::new(192, 168, 7, 1));
    let ack = server.answer(&frame, half).unwrap();
    let (phase, outcome) = on_message(phase, &ack, half);
    assert!(matches!(outcome, MessageOutcome::Granted));
    match phase {
        ClientPhase::Bound { ack, bound_at } => {
            assert_eq!(ack.ip, Ipv4Addr::new(192, 168, 7, 2));
            assert_eq!(bound_at, half);
        }
        _ => panic!("the client keeps its address"),
    }
}

#[test]
fn client_gives_up_an_address_that_the_server_refuses() {
    let mut server = Server::new("192.168.7.1/24");
    let (phase, frame, _) = sent(start_discover(), NOW);
    let offer = server.answer(&frame, NOW).unwrap();
    let (phase, _) = on_message(phase, &offer, NOW);
    let (phase, frame, _) = sent(phase, NOW);

    // Somebody else has taken the address meanwhile.
    let other = MacAddr::new(0x02, 9, 9, 9, 9, 9);
    let ip = Ipv4Addr::new(192, 168, 7, 2);
    server.leases.update_from_neighbor(other, ip, NOW);
    let nak = server.answer(&frame, NOW).unwrap();
    let (phase, outcome) = on_message(phase, &nak, NOW);
    assert!(matches!(outcome, MessageOutcome::Failed(DhcpError::Nak)));
    assert!(matches!(phase, ClientPhase::Request { .. }));
}
