//! What the DNS forwarder does with queries, replies and time running out.

use crate::addr::{spec_ipv4, Endpoint, Ipv4Addr, NANOS_PER_SEC};
use crate::dns::{
    asks_for, parse_dns, parsed_dns, plain_name, DnsPacket, DnsPacketView, DnsQuestionView,
    DNS_HEADER_SIZE, DNS_PORT, OPCODE_STANDARD_QUERY,
};
use crate::dns_cache::{
    cache_clock_fits, copy_bytes, evict_expired_cache, insert_cache, kept_for, lookup_cache,
    remembers, unexpired, DnsCache, EntryView,
};
use crate::ipc::DnsParentToWorkerMsg;
use crate::keys::keys_of;
use crate::packet::be16;
use std::collections::HashMap;
use vstd::prelude::*;

verus! {

broadcast use vstd::std_specs::hash::group_hash_axioms;

/// How long an upstream server has to answer.
pub const UPSTREAM_TIMEOUT: u64 = 3 * NANOS_PER_SEC;

/// How often expired answers are dropped and unanswered queries are looked at.
pub const CLEANUP_INTERVAL: u64 = NANOS_PER_SEC;

/// The most queries that wait for an answer.
pub const MAX_PENDING_QUERIES: usize = 4096;

/// The server that is asked where none is configured: `8.8.8.8`.
pub open spec fn fallback_server() -> Ipv4Addr {
    spec_ipv4(8, 8, 8, 8)
}

/// Whether an address may be that of an upstream server: it is neither
/// unspecified, broadcast, loopback, multicast nor link-local, and not set
/// aside for documentation.
pub open spec fn may_be_upstream(ip: Ipv4Addr) -> bool {
    let first = ip.bits / 0x100_0000;
    &&& ip.bits != 0
    &&& ip.bits != 0xffff_ffff
    &&& first != 127
    &&& !(224 <= first <= 239)
    &&& ip.bits / 0x1_0000 != 169 * 0x100 + 254
    &&& ip.bits / 0x100 != 192 * 0x1_0000 + 2
    &&& ip.bits / 0x100 != 198 * 0x1_0000 + 51 * 0x100 + 100
    &&& ip.bits / 0x100 != 203 * 0x1_0000 + 113
}

pub fn is_valid_upstream_resolver(ip: Ipv4Addr) -> (r: bool)
    ensures
        r == may_be_upstream(ip),
{
    let first: u32 = ip.bits / 0x100_0000;
    let second: u32 = ip.bits / 0x1_0000;
    let third: u32 = ip.bits / 0x100;
    ip.bits != 0 && ip.bits != 0xffff_ffff && first != 127 && !(224 <= first && first <= 239)
        && second != 169 * 0x100 + 254 && third != 192 * 0x1_0000 + 2 && third != 198 * 0x1_0000
        + 51 * 0x100 + 100 && third != 203 * 0x1_0000 + 113
}

/// The servers to ask: the configured ones that may be asked, or the fallback
/// where there is none.
pub open spec fn upstream_of(configured: Seq<Ipv4Addr>) -> Seq<Ipv4Addr> {
    let valid = configured.filter(|ip: Ipv4Addr| may_be_upstream(ip));
    if valid.len() > 0 {
        valid
    } else {
        seq![fallback_server()]
    }
}

pub fn get_upstream_resolvers(configured: &[Ipv4Addr]) -> (r: Vec<Ipv4Addr>)
    ensures
        r@ == upstream_of(configured@),
        r@.len() > 0,
{
    let ghost valid = |ip: Ipv4Addr| may_be_upstream(ip);
    let mut servers: Vec<Ipv4Addr> = Vec::new();
    let mut i: usize = 0;
    assert(configured@.take(0).filter(valid) =~= Seq::empty()) by {
        reveal(Seq::filter);
    }
    while i < configured.len()
        invariant
            i <= configured.len(),
            valid == (|ip: Ipv4Addr| may_be_upstream(ip)),
            servers@ == configured@.take(i as int).filter(valid),
        decreases configured.len() - i,
    {
        proof {
            reveal(Seq::filter);
            assert(configured@.take(i + 1).drop_last() =~= configured@.take(i as int));
        }
        if is_valid_upstream_resolver(configured[i]) {
            servers.push(configured[i]);
        }
        i += 1;
    }
    assert(configured@.take(i as int) =~= configured@);
    if servers.len() > 0 {
        servers
    } else {
        let mut fallback: Vec<Ipv4Addr> = Vec::new();
        fallback.push(Ipv4Addr::new(8, 8, 8, 8));
        assert(fallback@ =~= seq![fallback_server()]);
        fallback
    }
}

/// A question in one word: `name:type:class`.
pub open spec fn question_key(question: DnsQuestionView) -> Seq<char> {
    question.qname + ":"@ + question.qtype + ":"@ + question.qclass
}

/// The key under which the answer to a query is remembered: its first question,
/// where it is an ordinary query with a question.
pub open spec fn key_of_packet(packet: DnsPacketView) -> Option<Seq<u8>> {
    if packet.questions.len() == 0 || packet.opcode != OPCODE_STANDARD_QUERY {
        None
    } else {
        Some(vstd::utf8::encode_utf8(question_key(packet.questions[0])))
    }
}

/// The key under which the answer to a query is remembered.
pub open spec fn key_of(query: Seq<u8>) -> Option<Seq<u8>> {
    match parsed_dns(query) {
        Ok(packet) => key_of_packet(packet),
        Err(_) => None,
    }
}

/// Whether `r` shows the bytes `shown`.
pub open spec fn shows(r: Option<Vec<u8>>, shown: Option<Seq<u8>>) -> bool {
    match r {
        Some(bytes) => shown == Some(bytes@),
        None => shown is None,
    }
}

pub fn cache_key_of_packet(packet: &DnsPacket) -> (r: Option<Vec<u8>>)
    ensures
        shows(r, key_of_packet(packet@)),
{
    if packet.questions.len() == 0 || packet.opcode != OPCODE_STANDARD_QUERY {
        return None;
    }
    let question = &packet.questions[0];
    let key = question.qname.clone().concat(":").concat(question.qtype.as_str()).concat(
        ":",
    ).concat(question.qclass.as_str());
    Some(copy_bytes(key.as_str().as_bytes()))
}

pub fn get_cache_key(query_bytes: &[u8]) -> (r: Option<Vec<u8>>)
    ensures
        shows(r, key_of(query_bytes@)),
        query_bytes@.len() < DNS_HEADER_SIZE ==> r is None,
{
    match parse_dns(query_bytes) {
        Ok(packet) => cache_key_of_packet(&packet),
        Err(_) => None,
    }
}

/// A query that waits for an answer.
#[derive(Clone, Debug, PartialEq, Eq)]
pub struct PendingQuery {
    pub client_addr: Endpoint,
    pub client_xid: u16,
    pub cache_key: Vec<u8>,
    pub query_payload: Vec<u8>,
    pub upstream_servers: Vec<Ipv4Addr>,
    pub current_server_idx: usize,
    pub deadline: u64,
}

impl PendingQuery {
    /// One of the servers is being asked, and the query is long enough to hold
    /// a number.
    pub open spec fn wf(self) -> bool {
        &&& self.current_server_idx < self.upstream_servers@.len()
        &&& self.query_payload@.len() >= DNS_HEADER_SIZE
    }

    /// The server that is being asked.
    pub open spec fn server(self) -> Endpoint {
        Endpoint {
            ip: self.upstream_servers@[self.current_server_idx as int],
            port: DNS_PORT,
        }
    }
}

/// A packet with its number replaced.
pub open spec fn with_xid(packet: Seq<u8>, xid: u16) -> Seq<u8> {
    packet.update(0, (xid / 0x100) as u8).update(1, (xid % 0x100) as u8)
}

fn renumber(packet: &[u8], xid: u16) -> (r: Vec<u8>)
    requires
        packet@.len() >= 2,
    ensures
        r@ == with_xid(packet@, xid),
{
    let mut r = copy_bytes(packet);
    r.set(0, (xid / 0x100) as u8);
    r.set(1, (xid % 0x100) as u8);
    r
}

/// The forwarder's memory: the answers it keeps, the queries that wait, by the
/// numbers they were forwarded under, and the servers it was told to ask.
pub struct Forwarder {
    pub cache: DnsCache,
    pub pending: HashMap<u16, PendingQuery>,
    pub upstream_servers: Vec<Ipv4Addr>,
}

/// Whether the waiting queries are in order: none is numbered zero, and there
/// are no more than the limit.
pub open spec fn pending_wf(pending: Map<u16, PendingQuery>) -> bool {
    &&& pending.dom().finite()
    &&& pending.dom().len() <= MAX_PENDING_QUERIES
    &&& !pending.contains_key(0)
    &&& forall|xid: u16| #[trigger] pending.contains_key(xid) ==> pending[xid].wf()
}

impl Forwarder {
    /// The queries are in order, and every answer is long enough to hold a
    /// number.
    pub open spec fn wf(self) -> bool {
        &&& self.cache.wf()
        &&& pending_wf(self.pending@)
        &&& forall|key: Seq<u8>| #[trigger]
            self.cache@.contains_key(key) ==> self.cache@[key].response.len() >= DNS_HEADER_SIZE
    }

    pub fn new() -> (r: Forwarder)
        ensures
            r.wf(),
            r.cache@ == Map::<Seq<u8>, EntryView>::empty(),
            r.pending@ == Map::<u16, PendingQuery>::empty(),
            r.upstream_servers@ == Seq::<Ipv4Addr>::empty(),
    {
        let r = Forwarder {
            cache: DnsCache::new(),
            pending: HashMap::new(),
            upstream_servers: Vec::new(),
        };
        assert(r.pending@.dom() =~= Set::empty());
        r
    }
}

/// `rand::random`: any number.
#[verifier::external_body]
fn random_u16() -> (r: u16)
{
    rand::random::<u16>()
}

/// Whether a number can be given to another query.
pub open spec fn is_free(pending: Map<u16, PendingQuery>, xid: u16) -> bool {
    xid != 0 && !pending.contains_key(xid)
}

/// The number `n` steps after `start`, counted round.
pub open spec fn stepped(start: u16, n: int) -> u16 {
    ((start + n) % 0x1_0000) as u16
}

/// The first number at or after `start`, counted round, that can be given to
/// another query.
pub fn first_free_xid(pending: &HashMap<u16, PendingQuery>, start: u16) -> (r: u16)
    requires
        pending@.dom().finite(),
        pending@.dom().len() < MAX_PENDING_QUERIES,
    ensures
        is_free(pending@, r),
        exists|n: int|
            0 <= n && r == #[trigger] stepped(start, n) && forall|m: int|
                0 <= m < n ==> !is_free(pending@, #[trigger] stepped(start, m)),
{
    let mut xid: u16 = start;
    let ghost mut n: int = 0;
    assert(stepped(start, 0) == start);
    while xid == 0 || pending.contains_key(&xid)
        invariant
            pending@.dom().finite(),
            pending@.dom().len() < MAX_PENDING_QUERIES,
            0 <= n < 0x1_0000,
            xid == stepped(start, n),
            forall|m: int| 0 <= m < n ==> !is_free(pending@, #[trigger] stepped(start, m)),
        decreases 0x1_0000 - n,
    {
        proof {
            if n + 1 == 0x1_0000 {
                assert forall|x: u16| x != 0 implies pending@.contains_key(x) by {
                    let m = if x >= start {
                        x - start
                    } else {
                        x - start + 0x1_0000
                    };
                    assert(stepped(start, m) == x);
                    assert(!is_free(pending@, stepped(start, m)));
                }
                lemma_all_taken(pending@.dom());
            }
            assert(!is_free(pending@, stepped(start, n)));
            n = n + 1;
        }
        xid = if xid == 0xffff {
            0
        } else {
            (xid + 1) as u16
        };
        assert(xid == stepped(start, n));
    }
    xid
}

/// A set that holds every number but zero is larger than the limit.
proof fn lemma_all_taken(taken: Set<u16>)
    requires
        taken.finite(),
        forall|x: u16| x != 0 ==> #[trigger] taken.contains(x),
    ensures
        taken.len() > MAX_PENDING_QUERIES,
{
    let ints = vstd::set_lib::set_int_range(1, 0x1_0000);
    vstd::set_lib::lemma_int_range(1, 0x1_0000);
    let as_u16 = |i: int| i as u16;
    let numbers = ints.map(as_u16);
    assert(vstd::relations::injective_on(as_u16, ints));
    vstd::set_lib::lemma_map_size(ints, numbers, as_u16);
    assert(numbers.subset_of(taken));
    vstd::set_lib::lemma_len_subset(numbers, taken);
}

/// How often a number is drawn anew before the next free one is taken.
const MAX_DRAWS: u32 = 64;

/// Draws a number that can be given to another query, unless too many wait.
pub fn allocate_unique_xid(pending: &HashMap<u16, PendingQuery>) -> (r: Option<u16>)
    requires
        pending@.dom().finite(),
    ensures
        r is Some <==> pending@.dom().len() < MAX_PENDING_QUERIES,
        r matches Some(xid) ==> is_free(pending@, xid),
{
    if pending.len() >= MAX_PENDING_QUERIES {
        return None;
    }
    let mut xid: u16 = random_u16();
    let mut draws: u32 = 0;
    while draws < MAX_DRAWS && (xid == 0 || pending.contains_key(&xid))
        invariant
            draws <= MAX_DRAWS,
        decreases MAX_DRAWS - draws,
    {
        xid = random_u16();
        draws += 1;
    }
    Some(first_free_xid(pending, xid))
}

/// What the forwarder does with a query.
pub enum QueryAction {
    /// Nothing.
    Drop,
    /// Answer it from memory.
    Respond { to: Endpoint, response: Vec<u8> },
    /// Forward it; once it is sent, it waits under the number `xid`.
    Forward { to: Endpoint, packet: Vec<u8>, xid: u16, query: PendingQuery },
}

/// Whether `r` forwards a query from `src` to the first of the servers.
pub open spec fn forwards(
    query: Seq<u8>,
    src: Endpoint,
    key: Seq<u8>,
    pending: Map<u16, PendingQuery>,
    configured: Seq<Ipv4Addr>,
    now: u64,
    r: QueryAction,
) -> bool {
    if pending.dom().len() >= MAX_PENDING_QUERIES {
        r is Drop
    } else {
        &&& r matches QueryAction::Forward { to, packet, xid, query: waiting }
        &&& is_free(pending, xid)
        &&& to == (Endpoint { ip: upstream_of(configured)[0], port: DNS_PORT })
        &&& packet@ == with_xid(query, xid)
        &&& waiting.client_addr == src
        &&& waiting.client_xid == be16(query, 0)
        &&& waiting.cache_key@ == key
        &&& waiting.query_payload@ == query
        &&& waiting.upstream_servers@ == upstream_of(configured)
        &&& waiting.current_server_idx == 0
        &&& waiting.deadline == now + UPSTREAM_TIMEOUT
    }
}

/// Whether `r` is what the forwarder does with a query from `src`: it answers it
/// from memory, under the number of the query; else it forwards it.
pub open spec fn handles_query(
    query: Seq<u8>,
    src: Endpoint,
    before: Forwarder,
    now: u64,
    r: QueryAction,
    after: Forwarder,
) -> bool {
    &&& after.pending@ == before.pending@
    &&& after.upstream_servers@ == before.upstream_servers@
    &&& match key_of(query) {
        Some(key) => if unexpired(before.cache@, now).contains_key(key) {
            &&& after.cache@ == before.cache@
            &&& r matches QueryAction::Respond { to, response }
            &&& to == src
            &&& response@ == with_xid(before.cache@[key].response, be16(query, 0))
        } else {
            &&& after.cache@ == before.cache@.remove(key)
            &&& forwards(
                query,
                src,
                key,
                before.pending@,
                before.upstream_servers@,
                now,
                r,
            )
        },
        None => after.cache@ == before.cache@ && r is Drop,
    }
}

/// The clock reading up to which every deadline of the forwarder can be written
/// down.
pub open spec fn forwarder_clock_fits(now: u64) -> bool {
    cache_clock_fits(now)
}

fn forward_new_client_query(
    query: &[u8],
    src: Endpoint,
    cache_key: Vec<u8>,
    pending: &HashMap<u16, PendingQuery>,
    configured_servers: &Vec<Ipv4Addr>,
    now: u64,
) -> (r: QueryAction)
    requires
        pending@.dom().finite(),
        query@.len() >= DNS_HEADER_SIZE,
        forwarder_clock_fits(now),
    ensures
        forwards(query@, src, cache_key@, pending@, configured_servers@, now, r),
        r matches QueryAction::Forward { query: waiting, .. } ==> waiting.wf(),
{
    let xid: u16 = match allocate_unique_xid(pending) {
        Some(xid) => xid,
        None => {
            return QueryAction::Drop;
        },
    };
    let client_xid: u16 = query[0] as u16 * 0x100 + query[1] as u16;
    let upstream_servers = get_upstream_resolvers(configured_servers.as_slice());
    let to = Endpoint { ip: upstream_servers[0], port: DNS_PORT };
    let packet = renumber(query, xid);
    QueryAction::Forward {
        to,
        packet,
        xid,
        query: PendingQuery {
            client_addr: src,
            client_xid,
            cache_key,
            query_payload: copy_bytes(query),
            upstream_servers,
            current_server_idx: 0,
            deadline: now + UPSTREAM_TIMEOUT,
        },
    }
}

/// Acts on a query from a client.
pub fn handle_client_query(query: &[u8], src: Endpoint, forwarder: &mut Forwarder, now: u64) -> (r:
    QueryAction)
    requires
        old(forwarder).wf(),
        forwarder_clock_fits(now),
    ensures
        final(forwarder).wf(),
        handles_query(query@, src, *old(forwarder), now, r, *final(forwarder)),
        query@.len() < DNS_HEADER_SIZE ==> r is Drop,
        r matches QueryAction::Forward { query: waiting, .. } ==> waiting.wf(),
{
    let packet = match parse_dns(query) {
        Ok(packet) => packet,
        Err(_) => {
            return QueryAction::Drop;
        },
    };
    let cache_key = match cache_key_of_packet(&packet) {
        Some(key) => key,
        None => {
            return QueryAction::Drop;
        },
    };
    match lookup_cache(cache_key.as_slice(), &mut forwarder.cache, now) {
        Some(response) => {
            let xid: u16 = query[0] as u16 * 0x100 + query[1] as u16;
            QueryAction::Respond { to: src, response: renumber(response.as_slice(), xid) }
        },
        None => forward_new_client_query(
            query,
            src,
            cache_key,
            &forwarder.pending,
            &forwarder.upstream_servers,
            now,
        ),
    }
}

/// Lets a query that was sent wait for its answer.
pub fn query_forwarded(xid: u16, query: PendingQuery, forwarder: &mut Forwarder)
    requires
        old(forwarder).wf(),
        is_free(old(forwarder).pending@, xid),
        old(forwarder).pending@.dom().len() < MAX_PENDING_QUERIES,
        query.wf(),
    ensures
        final(forwarder).wf(),
        final(forwarder).pending@ == old(forwarder).pending@.insert(xid, query),
        final(forwarder).cache@ == old(forwarder).cache@,
        final(forwarder).upstream_servers@ == old(forwarder).upstream_servers@,
{
    forwarder.pending.insert(xid, query);
}

/// Whether `r` is what the forwarder sends on after a reply from `from`: only
/// the server that is being asked is believed. A reply ends the wait either
/// way.
pub open spec fn handles_reply(
    reply: Seq<u8>,
    from: Endpoint,
    before: Forwarder,
    now: u64,
    r: Option<(Endpoint, Vec<u8>)>,
    after: Forwarder,
) -> bool {
    let xid = be16(reply, 0);
    &&& after.upstream_servers@ == before.upstream_servers@
    &&& if reply.len() < DNS_HEADER_SIZE || !before.pending@.contains_key(xid) {
        r is None && after.pending@ == before.pending@ && after.cache@ == before.cache@
    } else {
        let query = before.pending@[xid];
        &&& after.pending@ == before.pending@.remove(xid)
        &&& if from != query.server() {
            r is None && after.cache@ == before.cache@
        } else {
            &&& remembers(
                before.cache@,
                query.cache_key@,
                reply,
                kept_for(reply),
                now,
                after.cache@,
            )
            &&& r matches Some((to, response))
            &&& to == query.client_addr
            &&& response@ == with_xid(reply, query.client_xid)
        }
    }
}

/// Acts on a reply from an upstream server.
pub fn handle_upstream_reply(
    reply: &[u8],
    from_addr: Endpoint,
    forwarder: &mut Forwarder,
    now: u64,
) -> (r: Option<(Endpoint, Vec<u8>)>)
    requires
        old(forwarder).wf(),
        forwarder_clock_fits(now),
    ensures
        final(forwarder).wf(),
        handles_reply(reply@, from_addr, *old(forwarder), now, r, *final(forwarder)),
{
    if reply.len() < DNS_HEADER_SIZE {
        return None;
    }
    let upstream_xid: u16 = reply[0] as u16 * 0x100 + reply[1] as u16;
    let query = match forwarder.pending.remove(&upstream_xid) {
        Some(query) => query,
        None => {
            assert(forwarder.pending@ =~= old(forwarder).pending@);
            return None;
        },
    };
    let expected_ip = query.upstream_servers[query.current_server_idx];
    if from_addr.ip != expected_ip || from_addr.port != DNS_PORT {
        return None;
    }
    insert_cache(query.cache_key, copy_bytes(reply), &mut forwarder.cache, now);
    Some((query.client_addr, renumber(reply, query.client_xid)))
}

/// What becomes of a waiting query at `now`: once its time is up, the next
/// server is asked; `None` where there is no next one.
pub open spec fn timed(query: PendingQuery, now: u64) -> Option<PendingQuery> {
    if query.deadline > now {
        Some(query)
    } else if query.current_server_idx + 1 < query.upstream_servers@.len() {
        Some(
            PendingQuery {
                current_server_idx: (query.current_server_idx + 1) as usize,
                deadline: (now + UPSTREAM_TIMEOUT) as u64,
                ..query
            },
        )
    } else {
        None
    }
}

/// What becomes of the waiting queries at `now`.
pub open spec fn all_timed(pending: Map<u16, PendingQuery>, now: u64) -> Map<u16, PendingQuery> {
    Map::new(
        |xid: u16| pending.contains_key(xid) && timed(pending[xid], now) is Some,
        |xid: u16| timed(pending[xid], now)->0,
    )
}

/// Whether the next server is asked for the query under `xid` at `now`.
pub open spec fn is_retried(pending: Map<u16, PendingQuery>, xid: u16, now: u64) -> bool {
    &&& pending.contains_key(xid)
    &&& pending[xid].deadline <= now
    &&& timed(pending[xid], now) is Some
}

/// Whether `sent` are the packets by which the queries under `xids` are sent to
/// the servers asked in `after`, in that order.
pub open spec fn sends_queries(
    sent: Seq<(Endpoint, Vec<u8>)>,
    after: Map<u16, PendingQuery>,
    xids: Seq<u16>,
) -> bool {
    &&& sent.len() == xids.len()
    &&& forall|i: int|
        0 <= i < sent.len() ==> (#[trigger] sent[i]).0 == after[xids[i]].server() && sent[i].1@
            == with_xid(after[xids[i]].query_payload@, xids[i])
}

/// Whether `sent` holds one packet for each query whose next server is asked at
/// `now`, in some order.
pub open spec fn retries(
    before: Map<u16, PendingQuery>,
    now: u64,
    sent: Seq<(Endpoint, Vec<u8>)>,
    after: Map<u16, PendingQuery>,
) -> bool {
    exists|xids: Seq<u16>|
        {
            &&& #[trigger] sends_queries(sent, after, xids)
            &&& xids.no_duplicates()
            &&& forall|xid: u16| #[trigger] xids.contains(xid) <==> is_retried(before, xid, now)
        }
}

/// Asks the next server for each query whose time is up, and forgets those for
/// which there is none.
pub fn check_pending_timeouts(pending: &mut HashMap<u16, PendingQuery>, now: u64) -> (r: Vec<
    (Endpoint, Vec<u8>),
>)
    requires
        pending_wf(old(pending)@),
        forwarder_clock_fits(now),
    ensures
        pending_wf(final(pending)@),
        final(pending)@ == all_timed(old(pending)@, now),
        retries(old(pending)@, now, r@, final(pending)@),
{
    let ghost before = pending@;
    let keys = keys_of(pending);
    let mut sent: Vec<(Endpoint, Vec<u8>)> = Vec::new();
    let ghost mut xids: Seq<u16> = Seq::empty();
    let ghost goal = all_timed(before, now);
    let mut i: usize = 0;
    while i < keys.len()
        invariant
            i <= keys.len(),
            forwarder_clock_fits(now),
            pending_wf(before),
            goal == all_timed(before, now),
            keys@.no_duplicates(),
            forall|xid: u16| #[trigger] before.contains_key(xid) <==> keys@.contains(xid),
            forall|xid: u16| #[trigger]
                pending@.contains_key(xid) <==> before.contains_key(xid) && (keys@.take(
                    i as int,
                ).contains(xid) ==> timed(before[xid], now) is Some),
            forall|xid: u16| #[trigger]
                pending@.contains_key(xid) ==> pending@[xid] == if keys@.take(i as int).contains(xid) {
                    timed(before[xid], now)->0
                } else {
                    before[xid]
                },
            xids.no_duplicates(),
            sends_queries(sent@, goal, xids),
            forall|xid: u16| #[trigger]
                xids.contains(xid) <==> keys@.take(i as int).contains(xid) && is_retried(
                    before,
                    xid,
                    now,
                ),
        decreases keys.len() - i,
    {
        let xid: u16 = keys[i];
        let ghost prefix = keys@.take(i as int);
        let ghost longer = keys@.take(i + 1);
        proof {
            assert(longer =~= prefix.push(xid));
            assert forall|x: u16| #[trigger] longer.contains(x) <==> prefix.contains(x) || x == xid by {
                if prefix.contains(x) {
                    let j = choose|j: int| 0 <= j < prefix.len() && prefix[j] == x;
                    assert(longer[j] == x);
                }
                assert(longer[i as int] == xid);
            }
            assert(!prefix.contains(xid));
            assert(keys@.contains(keys@[i as int]));
            assert(before.contains_key(xid));
            assert(before[xid].wf());
            assert(pending@.contains_key(xid));
        }
        let expired: bool = match pending.get(&xid) {
            Some(query) => query.deadline <= now,
            None => false,
        };
        if expired {
            if let Some(mut query) = pending.remove(&xid) {
                let servers: usize = query.upstream_servers.len();
                if query.current_server_idx + 1 < servers {
                    query.current_server_idx = query.current_server_idx + 1;
                    query.deadline = now + UPSTREAM_TIMEOUT;
                    let to = Endpoint {
                        ip: query.upstream_servers[query.current_server_idx],
                        port: DNS_PORT,
                    };
                    let packet = renumber(query.query_payload.as_slice(), xid);
                    let ghost sent_before = sent@;
                    let ghost xids_before = xids;
                    sent.push((to, packet));
                    proof {
                        assert(query == timed(before[xid], now)->0);
                        assert(!xids.contains(xid));
                        xids = xids.push(xid);
                        assert forall|x: u16| #[trigger]
                            xids.contains(x) <==> xids_before.contains(x) || x == xid by {
                            if xids_before.contains(x) {
                                let j = choose|j: int|
                                    0 <= j < xids_before.len() && xids_before[j] == x;
                                assert(xids[j] == x);
                            }
                            assert(xids[xids_before.len() as int] == xid);
                        }
                        assert(goal.contains_key(xid));
                        assert(goal[xid] == query);
                    }
                    pending.insert(xid, query);
                }
            }
        }
        i += 1;
    }
    proof {
        assert(keys@.take(i as int) =~= keys@);
        assert(pending@ =~= goal);
        assert(pending@.dom().subset_of(before.dom()));
        vstd::set_lib::lemma_len_subset(pending@.dom(), before.dom());
        assert forall|xid: u16| #[trigger] xids.contains(xid) <==> is_retried(before, xid, now) by {
            if is_retried(before, xid, now) {
                assert(before.contains_key(xid));
            }
        }
    }
    sent
}

/// What comes to the forwarder, apart from queries and replies.
pub enum ForwarderEvent {
    /// Some time has passed.
    Tick,
    /// The parent has something to say.
    Parent(DnsParentToWorkerMsg),
    /// The parent closed the connection, or the connection failed.
    ParentGone,
}

/// What the forwarder is to do.
pub struct ForwarderStep {
    /// The packets to send to servers.
    pub sends: Vec<(Endpoint, Vec<u8>)>,
    /// End.
    pub stop: bool,
}

/// Whether `step` is what the forwarder does on `event`, where `after` takes the
/// place of `before`.
pub open spec fn forwarder_event_handled(
    event: ForwarderEvent,
    before: Forwarder,
    now: u64,
    step: ForwarderStep,
    after: Forwarder,
) -> bool {
    match event {
        ForwarderEvent::Tick => {
            &&& after.cache@ == unexpired(before.cache@, now)
            &&& after.pending@ == all_timed(before.pending@, now)
            &&& after.upstream_servers@ == before.upstream_servers@
            &&& retries(before.pending@, now, step.sends@, after.pending@)
            &&& !step.stop
        },
        ForwarderEvent::Parent(DnsParentToWorkerMsg::SetUpstreamResolvers { servers }) => {
            &&& after.cache@ == before.cache@
            &&& after.pending@ == before.pending@
            &&& after.upstream_servers@ == servers@
            &&& step.sends@.len() == 0
            &&& !step.stop
        },
        ForwarderEvent::Parent(_) => {
            &&& after == before
            &&& step.sends@.len() == 0
            &&& !step.stop
        },
        ForwarderEvent::ParentGone => {
            &&& after == before
            &&& step.sends@.len() == 0
            &&& step.stop
        },
    }
}

/// Acts on what comes to the forwarder, apart from queries and replies.
pub fn run_forwarder_loop(event: ForwarderEvent, forwarder: &mut Forwarder, now: u64) -> (r:
    ForwarderStep)
    requires
        old(forwarder).wf(),
        forwarder_clock_fits(now),
    ensures
        final(forwarder).wf(),
        forwarder_event_handled(event, *old(forwarder), now, r, *final(forwarder)),
{
    match event {
        ForwarderEvent::Tick => {
            evict_expired_cache(&mut forwarder.cache, now);
            let sends = check_pending_timeouts(&mut forwarder.pending, now);
            ForwarderStep { sends, stop: false }
        },
        ForwarderEvent::Parent(DnsParentToWorkerMsg::SetUpstreamResolvers { servers }) => {
            forwarder.upstream_servers = servers;
            ForwarderStep { sends: Vec::new(), stop: false }
        },
        ForwarderEvent::Parent(_) => ForwarderStep { sends: Vec::new(), stop: false },
        ForwarderEvent::ParentGone => ForwarderStep { sends: Vec::new(), stop: true },
    }
}

/// The router's own query for the address of a host is one that the forwarder
/// takes, under the key of that host.
pub proof fn law_own_query_is_taken(query: Seq<u8>, query_id: u16, host: Seq<char>)
    requires
        asks_for(query, query_id, host),
        plain_name(host),
    ensures
        key_of(query) == Some(
            vstd::utf8::encode_utf8(
                question_key(DnsQuestionView { qname: host, qtype: "A"@, qclass: "IN"@ }),
            ),
        ),
{
}

/// A query is answered with the reply to it: the client that asked gets the
/// reply of the server that was asked, under the number of its own query.
pub proof fn law_client_gets_its_own_number(
    query: Seq<u8>,
    src: Endpoint,
    key: Seq<u8>,
    pending: Map<u16, PendingQuery>,
    configured: Seq<Ipv4Addr>,
    sent_at: u64,
    action: QueryAction,
    reply: Seq<u8>,
    before: Forwarder,
    now: u64,
    r: Option<(Endpoint, Vec<u8>)>,
    after: Forwarder,
)
    requires
        query.len() >= DNS_HEADER_SIZE,
        reply.len() >= DNS_HEADER_SIZE,
        forwards(query, src, key, pending, configured, sent_at, action),
        action matches QueryAction::Forward { to, xid, query: waiting, .. } && be16(reply, 0) == xid
            && before.pending@.contains_key(xid) && before.pending@[xid] == waiting
            && handles_reply(reply, to, before, now, r, after),
    ensures
        r matches Some((to, response)) && to == src && be16(response@, 0) == be16(query, 0)
            && response@.len() == reply.len() && response@.skip(2) == reply.skip(2),
{
    lemma_number(reply, be16(query, 0));
}

/// The number put into a packet is the number read from it, and nothing else of
/// the packet changes.
proof fn lemma_number(packet: Seq<u8>, xid: u16)
    requires
        packet.len() >= 2,
    ensures
        be16(with_xid(packet, xid), 0) == xid,
        with_xid(packet, xid).len() == packet.len(),
        with_xid(packet, xid).skip(2) == packet.skip(2),
{
    assert(with_xid(packet, xid).skip(2) =~= packet.skip(2));
}

/// A reply from any other address than that of the server being asked reaches
/// no client and is not remembered.
pub proof fn law_spoofed_replies_are_dropped(
    reply: Seq<u8>,
    from: Endpoint,
    before: Forwarder,
    now: u64,
    r: Option<(Endpoint, Vec<u8>)>,
    after: Forwarder,
)
    requires
        handles_reply(reply, from, before, now, r, after),
        before.pending@.contains_key(be16(reply, 0)) ==> before.pending@[be16(reply, 0)].server()
            != from,
    ensures
        r is None,
        after.cache@ == before.cache@,
{
}

/// What was answered once is answered from memory while it is kept, without
/// asking a server, also after answers that have run out were dropped.
pub proof fn law_kept_answer_is_reused(
    query: Seq<u8>,
    src: Endpoint,
    key: Seq<u8>,
    response: Seq<u8>,
    secs: u32,
    answered_at: u64,
    earlier: Map<Seq<u8>, EntryView>,
    kept: Map<Seq<u8>, EntryView>,
    cleared_at: u64,
    before: Forwarder,
    now: u64,
    r: QueryAction,
    after: Forwarder,
)
    requires
        key_of(query) == Some(key),
        remembers(earlier, key, response, Some(secs), answered_at, kept),
        before.cache@ == kept || before.cache@ == unexpired(kept, cleared_at),
        answered_at <= cleared_at <= now < answered_at + secs * NANOS_PER_SEC <= u64::MAX,
        handles_query(query, src, before, now, r, after),
    ensures
        r matches QueryAction::Respond { to, response: answer } && to == src && answer@
            == with_xid(response, be16(query, 0)),
{
}

/// A query waits no longer than each of its servers has to answer: at every look
/// at the waiting queries it either is still in time, or moves on to the next
/// server, or is forgotten.
pub proof fn law_queries_do_not_wait_forever(pending: Map<u16, PendingQuery>, now: u64, xid: u16)
    requires
        all_timed(pending, now).contains_key(xid),
        now + UPSTREAM_TIMEOUT <= u64::MAX,
    ensures
        pending.contains_key(xid),
        all_timed(pending, now)[xid].deadline > now,
        all_timed(pending, now)[xid] != pending[xid] ==> all_timed(
            pending,
            now,
        )[xid].current_server_idx == pending[xid].current_server_idx + 1,
{
    assert(pending[xid].upstream_servers.len() == pending[xid].upstream_servers@.len());
}

} // verus!
