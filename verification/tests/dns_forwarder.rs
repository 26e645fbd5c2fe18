use std::collections::HashMap;
use trimrouter::addr::{Endpoint, Ipv4Addr};
use trimrouter::dns::{
    accept_dns_reply, build_dns_a_query, local_dns_server, parse_dns_a_record_response,
    DNS_HEADER_SIZE,
};
use trimrouter::dns_cache::{
    evict_expired_cache, insert_cache, lookup_cache, CacheEntry, DnsCache, MAX_CACHE_ENTRIES,
};
use trimrouter::dns_forwarder::{
    allocate_unique_xid, get_cache_key, get_upstream_resolvers, handle_client_query,
    handle_upstream_reply, is_valid_upstream_resolver, query_forwarded, run_forwarder_loop,
    Forwarder, ForwarderEvent, PendingQuery, QueryAction, UPSTREAM_TIMEOUT,
};
use trimrouter::ipc::DnsParentToWorkerMsg;

const SECOND: u64 = 1_000_000_000;
const NOW: u64 = 1_000_000 * SECOND;

fn fallback_dns_server() -> Ipv4Addr {
    Ipv4Addr::new(8, 8, 8, 8)
}

fn google_query() -> Vec<u8> {
    let mut query = vec![0u8; DNS_HEADER_SIZE];
    query[5] = 1;
    query.extend_from_slice(&[
        6, b'g', b'o', b'o', b'g', b'l', b'e', 3, b'c', b'o', b'm', 0,
    ]);
    query.extend_from_slice(&[0, 1]);
    query.extend_from_slice(&[0, 1]);
    query
}

/// An answer with one address for each of the times to live.
fn google_response(ttls: &[u32]) -> Vec<u8> {
    let mut resp = google_query();
    resp[7] = ttls.len() as u8;
    for (i, ttl) in ttls.iter().enumerate() {
        resp.extend_from_slice(&[0xc0, 0x0c, 0, 1, 0, 1]);
        resp.extend_from_slice(&ttl.to_be_bytes());
        resp.extend_from_slice(&[0, 4, 8, 8, 8, 8 - 4 * (i as u8)]);
    }
    resp
}

fn seconds_left(entry: &CacheEntry) -> u64 {
    (entry.expiry - NOW) / SECOND
}

fn key_of_google_query() {
    let key = get_cache_key(&google_query());
    assert_eq!(key, Some("google.com:A:IN".to_string().into_bytes()));
}

fn key_of_short_query() {
    let query = vec![0u8; 10];
    assert_eq!(get_cache_key(&query), None);
}

fn least_ttl_counts() {
    let mut cache = DnsCache::new();
    insert_cache(b"key".to_vec(), google_response(&[300, 150]), &mut cache, NOW);

    let cache_ttl = seconds_left(cache.get(b"key").unwrap());
    assert!((148..=150).contains(&cache_ttl));
}

#[test]
fn worker_test_get_cache_key_valid() {
    key_of_google_query();
}

#[test]
fn dns_forwarder_test_get_cache_key_valid() {
    key_of_google_query();
}

#[test]
fn worker_test_get_cache_key_invalid() {
    key_of_short_query();
}

#[test]
fn dns_forwarder_test_get_cache_key_invalid() {
    key_of_short_query();
}

#[test]
fn worker_test_insert_cache_ttl() {
    least_ttl_counts();
}

#[test]
fn dns_forwarder_test_insert_cache_ttl() {
    least_ttl_counts();
}

#[test]
fn test_get_upstream_resolvers_empty_fallback() {
    let resolvers = get_upstream_resolvers(&[]);
    assert_eq!(resolvers, vec![fallback_dns_server()]);
}

#[test]
fn test_get_upstream_resolvers_configured() {
    let primary = Ipv4Addr::new(1, 1, 1, 1);
    let secondary = Ipv4Addr::new(1, 0, 0, 1);
    let resolvers = get_upstream_resolvers(&[primary, secondary]);
    assert_eq!(resolvers, vec![primary, secondary]);
}

#[test]
fn test_get_cache_key_empty_bytes_returns_none() {
    assert_eq!(get_cache_key(&[]), None);
}

#[test]
fn test_get_cache_key_zero_qdcount_returns_none() {
    let query = vec![0u8; DNS_HEADER_SIZE];
    assert_eq!(get_cache_key(&query), None);
}

#[test]
fn test_get_cache_key_corrupted_label_length_returns_none() {
    let mut query = vec![0u8; DNS_HEADER_SIZE];
    query[5] = 1;
    query.extend_from_slice(&[255, b'a', b'b']);

    assert_eq!(get_cache_key(&query), None);
}

#[test]
fn test_insert_cache_corrupted_response_not_cached() {
    let mut corrupted_resp = vec![0u8; DNS_HEADER_SIZE];
    corrupted_resp[5] = 1;
    corrupted_resp[7] = 1;
    corrupted_resp.extend_from_slice(&[0xff, 0xff, 0xff]);

    let mut cache = DnsCache::new();
    insert_cache(b"corrupted_key".to_vec(), corrupted_resp, &mut cache, NOW);

    assert!(!cache.contains_key(b"corrupted_key"));
}

#[test]
fn test_is_valid_upstream_resolver_filters_loopback_and_special() {
    assert!(is_valid_upstream_resolver(Ipv4Addr::new(8, 8, 8, 8)));
    assert!(is_valid_upstream_resolver(Ipv4Addr::new(1, 1, 1, 1)));

    assert!(!is_valid_upstream_resolver(Ipv4Addr::unspecified()));
    assert!(!is_valid_upstream_resolver(Ipv4Addr::broadcast()));
    assert!(!is_valid_upstream_resolver(Ipv4Addr::new(127, 0, 0, 1)));
    assert!(!is_valid_upstream_resolver(Ipv4Addr::new(127, 0, 0, 53)));
    assert!(!is_valid_upstream_resolver(Ipv4Addr::new(224, 0, 0, 1)));
    assert!(!is_valid_upstream_resolver(Ipv4Addr::new(169, 254, 1, 1)));
    assert!(!is_valid_upstream_resolver(Ipv4Addr::new(192, 0, 2, 1)));
}

#[test]
fn special_addresses_agree_with_std() {
    for bits in (0..=u32::MAX).step_by(65_521) {
        let known = ipnet::Ipv4Net::new_assert(bits.into(), 32).addr();
        let expected = !known.is_unspecified()
            && !known.is_broadcast()
            && !known.is_loopback()
            && !known.is_multicast()
            && !known.is_link_local()
            && !known.is_documentation();
        assert_eq!(is_valid_upstream_resolver(Ipv4Addr { bits }), expected);
    }
    assert!(!is_valid_upstream_resolver(Ipv4Addr::new(198, 51, 100, 7)));
    assert!(!is_valid_upstream_resolver(Ipv4Addr::new(203, 0, 113, 7)));
    assert!(is_valid_upstream_resolver(Ipv4Addr::new(203, 0, 114, 7)));
}

#[test]
fn test_get_upstream_resolvers_filters_invalid_and_falls_back() {
    let invalid_servers = vec![
        Ipv4Addr::new(127, 0, 0, 1),
        Ipv4Addr::unspecified(),
        Ipv4Addr::broadcast(),
    ];
    let resolvers = get_upstream_resolvers(&invalid_servers);
    assert_eq!(resolvers, vec![fallback_dns_server()]);

    let mixed_servers = vec![
        Ipv4Addr::new(127, 0, 0, 1),
        Ipv4Addr::new(9, 9, 9, 9),
        Ipv4Addr::unspecified(),
    ];
    let resolvers = get_upstream_resolvers(&mixed_servers);
    assert_eq!(resolvers, vec![Ipv4Addr::new(9, 9, 9, 9)]);
}

#[test]
fn test_insert_cache_ttl_rfc2181_behavior() {
    // An answer that may not be kept is not.
    let mut cache = DnsCache::new();
    insert_cache(b"zero_key".to_vec(), google_response(&[0]), &mut cache, NOW);
    assert!(!cache.contains_key(b"zero_key"));

    // A short time to live is kept as it is.
    insert_cache(b"low_key".to_vec(), google_response(&[10]), &mut cache, NOW);
    let cache_ttl_low = seconds_left(cache.get(b"low_key").unwrap());
    assert!((9..=10).contains(&cache_ttl_low));

    // A long time to live is cut to an hour.
    insert_cache(b"max_key".to_vec(), google_response(&[1_000_000]), &mut cache, NOW);
    let cache_ttl_max = seconds_left(cache.get(b"max_key").unwrap());
    assert!((3598..=3600).contains(&cache_ttl_max));
}

#[test]
fn test_get_cache_key_rejects_non_standard_opcode() {
    let mut query = google_query();
    query[2] = 0x28;

    assert_eq!(get_cache_key(&query), None);
}

#[test]
fn test_allocate_unique_xid_never_zero() {
    let pending = HashMap::new();
    for _ in 0..100 {
        let xid = allocate_unique_xid(&pending);
        assert!(xid.is_some());
        assert_ne!(xid.unwrap(), 0);
    }
}

#[test]
fn test_lookup_cache_expired_entry_evicted_on_lookup() {
    let mut cache = DnsCache::new();
    let key = b"expired_key".to_vec();
    cache.insert(
        key.clone(),
        CacheEntry {
            response: vec![1, 2, 3],
            expiry: NOW - SECOND,
        },
    );

    assert_eq!(lookup_cache(&key, &mut cache, NOW), None);
    assert!(!cache.contains_key(&key));
}

#[test]
fn answer_without_records_is_kept_for_half_a_minute() {
    let mut cache = DnsCache::new();
    insert_cache(b"key".to_vec(), google_query(), &mut cache, NOW);
    assert_eq!(seconds_left(cache.get(b"key").unwrap()), 30);
}

#[test]
fn full_cache_drops_the_answer_that_runs_out_first() {
    let mut cache = DnsCache::new();
    for i in 0..MAX_CACHE_ENTRIES as u64 {
        cache.insert(
            i.to_be_bytes().to_vec(),
            CacheEntry {
                response: vec![0],
                expiry: NOW + (1000 + (i + 7) % MAX_CACHE_ENTRIES as u64) * SECOND,
            },
        );
    }
    insert_cache(b"new".to_vec(), google_response(&[60]), &mut cache, NOW);
    assert_eq!(cache.len(), MAX_CACHE_ENTRIES);
    assert!(cache.contains_key(b"new"));
    assert!(!cache.contains_key(&(MAX_CACHE_ENTRIES as u64 - 7).to_be_bytes()));
}

#[test]
fn only_expired_answers_are_dropped() {
    let mut cache = DnsCache::new();
    for (key, expiry) in [("old", NOW), ("new", NOW + 1)] {
        cache.insert(
            key.as_bytes().to_vec(),
            CacheEntry {
                response: vec![1],
                expiry,
            },
        );
    }
    evict_expired_cache(&mut cache, NOW);
    assert!(!cache.contains_key(b"old"));
    assert!(cache.contains_key(b"new"));
}

fn client() -> Endpoint {
    Endpoint {
        ip: Ipv4Addr::new(192, 168, 1, 50),
        port: 40000,
    }
}

fn numbered(mut packet: Vec<u8>, xid: u16) -> Vec<u8> {
    packet[..2].copy_from_slice(&xid.to_be_bytes());
    packet
}

fn forward(forwarder: &mut Forwarder, xid: u16) -> (Endpoint, u16) {
    match handle_client_query(&numbered(google_query(), xid), client(), forwarder, NOW) {
        QueryAction::Forward {
            to,
            xid: upstream_xid,
            packet,
            query,
        } => {
            assert_eq!(packet, numbered(google_query(), upstream_xid));
            query_forwarded(upstream_xid, query, forwarder);
            (to, upstream_xid)
        }
        _ => panic!("the query is forwarded"),
    }
}

#[test]
fn query_is_forwarded_answered_and_remembered() {
    let mut forwarder = Forwarder::new();
    let (server, upstream_xid) = forward(&mut forwarder, 0x1234);
    assert_eq!(
        server,
        Endpoint {
            ip: fallback_dns_server(),
            port: 53
        }
    );

    let reply = numbered(google_response(&[60]), upstream_xid);
    let (to, response) =
        handle_upstream_reply(&reply, server, &mut forwarder, NOW).expect("the client is answered");
    assert_eq!(to, client());
    assert_eq!(response, numbered(google_response(&[60]), 0x1234));

    // The next client is answered from memory, under its own number.
    match handle_client_query(
        &numbered(google_query(), 0x4321),
        client(),
        &mut forwarder,
        NOW + SECOND,
    ) {
        QueryAction::Respond { to, response } => {
            assert_eq!(to, client());
            assert_eq!(response, numbered(google_response(&[60]), 0x4321));
        }
        _ => panic!("the answer is remembered"),
    }

    // Once the answer has run out, the query is forwarded again.
    assert!(matches!(
        handle_client_query(
            &google_query(),
            client(),
            &mut forwarder,
            NOW + 60 * SECOND
        ),
        QueryAction::Forward { .. }
    ));
}

#[test]
fn reply_from_another_address_is_dropped() {
    let mut forwarder = Forwarder::new();
    let (server, upstream_xid) = forward(&mut forwarder, 1);
    let reply = numbered(google_response(&[60]), upstream_xid);
    let impostor = Endpoint {
        ip: Ipv4Addr::new(6, 6, 6, 6),
        port: server.port,
    };
    assert_eq!(
        handle_upstream_reply(&reply, impostor, &mut forwarder, NOW),
        None
    );
    assert_eq!(forwarder.cache.len(), 0);
}

#[test]
fn reply_that_nobody_waits_for_is_dropped() {
    let mut forwarder = Forwarder::new();
    let from = Endpoint {
        ip: fallback_dns_server(),
        port: 53,
    };
    assert_eq!(
        handle_upstream_reply(&google_response(&[60]), from, &mut forwarder, NOW),
        None
    );
    assert_eq!(handle_upstream_reply(&[0; 4], from, &mut forwarder, NOW), None);
}

#[test]
fn nonsense_is_not_forwarded() {
    let mut forwarder = Forwarder::new();
    assert!(matches!(
        handle_client_query(&[0; 5], client(), &mut forwarder, NOW),
        QueryAction::Drop
    ));
    assert!(matches!(
        handle_client_query(&[0; 12], client(), &mut forwarder, NOW),
        QueryAction::Drop
    ));
}

#[test]
fn next_server_is_asked_when_time_is_up() {
    let first = Ipv4Addr::new(1, 1, 1, 1);
    let second = Ipv4Addr::new(1, 0, 0, 1);
    let mut forwarder = Forwarder::new();
    let step = run_forwarder_loop(
        ForwarderEvent::Parent(DnsParentToWorkerMsg::SetUpstreamResolvers {
            servers: vec![first, second],
        }),
        &mut forwarder,
        NOW,
    );
    assert!(step.sends.is_empty() && !step.stop);
    let (server, upstream_xid) = forward(&mut forwarder, 9);
    assert_eq!(server.ip, first);

    let step = run_forwarder_loop(ForwarderEvent::Tick, &mut forwarder, NOW + SECOND);
    assert!(step.sends.is_empty());

    let late = NOW + UPSTREAM_TIMEOUT;
    let step = run_forwarder_loop(ForwarderEvent::Tick, &mut forwarder, late);
    assert_eq!(
        step.sends,
        vec![(
            Endpoint {
                ip: second,
                port: 53
            },
            numbered(google_query(), upstream_xid)
        )]
    );
    let waiting: &PendingQuery = forwarder.pending.get(&upstream_xid).unwrap();
    assert_eq!(waiting.deadline, late + UPSTREAM_TIMEOUT);

    let step = run_forwarder_loop(
        ForwarderEvent::Tick,
        &mut forwarder,
        late + UPSTREAM_TIMEOUT,
    );
    assert!(step.sends.is_empty());
    assert!(forwarder.pending.is_empty());

    assert!(run_forwarder_loop(ForwarderEvent::ParentGone, &mut forwarder, late).stop);
}

#[test]
fn test_parse_dns_response_corrupted_returns_err() {
    let corrupted = [0u8; 5];
    let res = parse_dns_a_record_response(&corrupted, 0x1234, "google.com");
    assert!(res.is_err());
}

#[test]
fn test_parse_dns_response_xid_mismatch_returns_err() {
    let mut dns_resp = vec![0u8; 12];
    dns_resp[0] = 0x11;
    dns_resp[1] = 0x11;

    let res = parse_dns_a_record_response(&dns_resp, 0x2222, "google.com");
    assert!(res.is_err());
    assert_eq!(res.unwrap_err(), "Transaction ID mismatch");
}

#[test]
fn address_is_read_from_a_response() {
    let reply = numbered(google_response(&[60]), 0x2222);
    assert_eq!(
        parse_dns_a_record_response(&reply, 0x2222, "google.com"),
        Ok(Ipv4Addr::new(8, 8, 8, 8))
    );
    assert_eq!(
        parse_dns_a_record_response(&google_query(), 0, "google.com"),
        Err("No A record resolved for google.com".to_string())
    );
    let unparsable = parse_dns_a_record_response(&[0; 5], 0, "google.com").unwrap_err();
    assert!(unparsable.starts_with("Failed to parse DNS response: "));
    assert!(unparsable.len() > "Failed to parse DNS response: ".len());
}

#[test]
fn only_the_local_forwarder_is_believed() {
    let reply = numbered(google_response(&[60]), 7);
    assert_eq!(
        accept_dns_reply(local_dns_server(), &reply, 7, "google.com"),
        Ok(Ipv4Addr::new(8, 8, 8, 8))
    );
    let other = Endpoint {
        ip: Ipv4Addr::new(127, 0, 0, 1),
        port: 5353,
    };
    assert_eq!(
        accept_dns_reply(other, &reply, 7, "google.com"),
        Err("Received packet from unexpected source".to_string())
    );
}

#[test]
fn query_for_a_host_is_built() {
    let query = build_dns_a_query(0x0102, "time.google.com").unwrap();
    let mut expected = vec![1, 2, 1, 0, 0, 1, 0, 0, 0, 0, 0, 0];
    expected.extend_from_slice(b"\x04time\x06google\x03com\x00");
    expected.extend_from_slice(&[0, 1, 0, 1]);
    assert_eq!(query, expected);
}

#[test]
fn own_query_is_forwarded_under_the_key_of_its_host() {
    let query = build_dns_a_query(0x0102, "time.google.com").unwrap();
    assert_eq!(get_cache_key(&query), Some(b"time.google.com:A:IN".to_vec()));
}

#[test]
fn query_for_a_long_name_is_not_built() {
    let label = "a".repeat(61);
    let fitting = [label.as_str(); 8].join(".").split_off(1);
    assert_eq!(fitting.len(), 494);
    assert_eq!(build_dns_a_query(1, &fitting).unwrap().len(), 512);
    let long = [label.as_str(); 8].join(".");
    assert_eq!(
        build_dns_a_query(1, &long),
        Err("Failed to build DNS query packet".to_string())
    );
}

#[test]
fn packets_shorter_than_a_header_are_not_taken() {
    for len in [0, 1, DNS_HEADER_SIZE - 1] {
        let packet = vec![0u8; len];
        assert_eq!(get_cache_key(&packet), None);
        let mut forwarder = Forwarder::new();
        assert!(matches!(
            handle_client_query(&packet, client(), &mut forwarder, NOW),
            QueryAction::Drop
        ));
        assert!(parse_dns_a_record_response(&packet, 0, "host").is_err());
        assert!(accept_dns_reply(local_dns_server(), &packet, 0, "host").is_err());
        let mut cache = DnsCache::new();
        insert_cache(b"key".to_vec(), packet, &mut cache, NOW);
        assert_eq!(cache.len(), 0);
    }
}

#[test]
fn full_cache_drops_everything_that_ran_out_and_nothing_else() {
    let mut cache = DnsCache::new();
    for i in 0..MAX_CACHE_ENTRIES as u64 {
        cache.insert(
            i.to_be_bytes().to_vec(),
            CacheEntry {
                response: vec![0],
                expiry: if i < 3 { NOW } else { NOW + SECOND },
            },
        );
    }
    insert_cache(b"new".to_vec(), google_response(&[60]), &mut cache, NOW);
    assert_eq!(cache.len(), MAX_CACHE_ENTRIES - 2);
    assert!(!cache.contains_key(&2u64.to_be_bytes()));
    assert!(cache.contains_key(&3u64.to_be_bytes()));
    assert!(cache.contains_key(b"new"));
}
