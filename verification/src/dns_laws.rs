//! What the DNS forwarder owes to those that ask it, told of what goes into its
//! functions and what comes out.

use crate::addr::{Endpoint, Ipv4Addr};
use crate::dns::{
    accept_dns_reply, address_from_packet, build_dns_a_query, find_first_a_record, local_dns_server,
    parse_dns_a_record_response, parsed_dns, plain_name, DnsPacket, DnsPacketView, DnsQuestionView,
};
use crate::dns_cache::{
    cache_ttl, capped_ttl, copy_bytes, evict_expired_cache, insert_cache, is_oldest, least_ttl,
    lookup_cache, makes_room, remember, same_bytes, unexpired, CacheEntry, DnsCache, EntryView,
};
use crate::dns_forwarder::{
    allocate_unique_xid, cache_key_of_packet, check_pending_timeouts, first_free_xid, get_cache_key,
    get_upstream_resolvers, handle_client_query, handle_upstream_reply, is_valid_upstream_resolver,
    may_be_upstream, query_forwarded, question_key, run_forwarder_loop, sends_queries, upstream_of,
    Forwarder, ForwarderEvent, ForwarderStep, PendingQuery, QueryAction,
};
use crate::ipc::DnsParentToWorkerMsg;
use std::collections::HashMap;
use vstd::prelude::*;
use vstd::utf8::encode_utf8;

verus! {

/// The bytes of a question in one word: its name, its type and its class, with a
/// colon between each two.
pub open spec fn joined(question: DnsQuestionView) -> Seq<u8> {
    encode_utf8(question.qname) + seq![58u8] + encode_utf8(question.qtype) + seq![58u8]
        + encode_utf8(question.qclass)
}

/// Whether no word of a question has a colon in it.
pub open spec fn has_plain_words(question: DnsQuestionView) -> bool {
    &&& !question.qname.contains(':')
    &&& !question.qtype.contains(':')
    &&& !question.qclass.contains(':')
}

/// Whether a packet is an ordinary query that asks for something.
pub open spec fn is_ordinary(packet: DnsPacketView) -> bool {
    packet.questions.len() > 0 && packet.opcode == 0
}

/// Whether `out` is `packet` under the number `xid`: the first two bytes spell
/// it, and the others are the same.
pub open spec fn is_numbered(out: Seq<u8>, packet: Seq<u8>, xid: u16) -> bool {
    &&& out.len() == packet.len()
    &&& out.len() >= 2
    &&& out[0] * 256 + out[1] == xid
    &&& forall|i: int| 2 <= i < out.len() ==> #[trigger] out[i] == packet[i]
}

/// Whether an address written `a.b.c.d` may be that of a server on the Internet.
pub open spec fn is_public(a: u8, b: u8, c: u8, d: u8) -> bool {
    &&& !(a == 0 && b == 0 && c == 0 && d == 0)
    &&& !(a == 255 && b == 255 && c == 255 && d == 255)
    &&& a != 127
    &&& a < 224 || a > 239
    &&& !(a == 169 && b == 254)
    &&& !(a == 192 && b == 0 && c == 2)
    &&& !(a == 198 && b == 51 && c == 100)
    &&& !(a == 203 && b == 0 && c == 113)
}

proof fn lemma_utf8_join(a: Seq<char>, b: Seq<char>)
    ensures
        encode_utf8(a + b) == encode_utf8(a) + encode_utf8(b),
    decreases a.len(),
{
    if a.len() == 0 {
        assert(a + b =~= b);
        assert(encode_utf8(a) + encode_utf8(b) =~= encode_utf8(b));
    } else {
        lemma_utf8_join(a.drop_first(), b);
        assert((a + b).drop_first() =~= a.drop_first() + b);
        assert((a + b)[0] == a[0]);
        assert(encode_utf8(a + b) =~= encode_utf8(a) + encode_utf8(b));
    }
}

proof fn lemma_colon()
    ensures
        ":"@ == seq![':'],
        encode_utf8(":"@) == seq![58u8],
{
    reveal_strlit(":");
    assert(":"@ =~= seq![':']);
    vstd::utf8::is_ascii_chars_encode_utf8(seq![':']);
    assert(encode_utf8(seq![':']) =~= seq![58u8]);
}

proof fn lemma_key_is_joined(question: DnsQuestionView)
    ensures
        encode_utf8(question_key(question)) == joined(question),
{
    lemma_colon();
    let (name, kind, class) = (question.qname, question.qtype, question.qclass);
    lemma_utf8_join(name + ":"@ + kind + ":"@, class);
    lemma_utf8_join(name + ":"@ + kind, ":"@);
    lemma_utf8_join(name + ":"@, kind);
    lemma_utf8_join(name, ":"@);
}

/// The first words of two texts are the same where the texts are, up to the first
/// colon.
proof fn lemma_split(a: Seq<char>, x: Seq<char>, b: Seq<char>, y: Seq<char>)
    requires
        !a.contains(':'),
        !b.contains(':'),
        a + seq![':'] + x == b + seq![':'] + y,
    ensures
        a == b,
        x == y,
{
    let left = a + seq![':'] + x;
    let right = b + seq![':'] + y;
    if a.len() < b.len() {
        assert(left[a.len() as int] == ':');
        assert(right[a.len() as int] == b[a.len() as int]);
        assert(b.contains(b[a.len() as int]));
    } else if b.len() < a.len() {
        assert(right[b.len() as int] == ':');
        assert(left[b.len() as int] == a[b.len() as int]);
        assert(a.contains(a[b.len() as int]));
    }
    assert(a =~= b) by {
        assert forall|i: int| 0 <= i < a.len() implies a[i] == b[i] by {
            assert(left[i] == a[i] && right[i] == b[i]);
        }
    }
    assert(left.skip(a.len() as int + 1) =~= x);
    assert(right.skip(b.len() as int + 1) =~= y);
}

proof fn lemma_joined_apart(a: DnsQuestionView, b: DnsQuestionView)
    requires
        has_plain_words(a),
        has_plain_words(b),
        joined(a) == joined(b),
    ensures
        a == b,
{
    lemma_key_is_joined(a);
    lemma_key_is_joined(b);
    vstd::utf8::encode_utf8_decode_utf8(question_key(a));
    vstd::utf8::encode_utf8_decode_utf8(question_key(b));
    lemma_colon();
    let (x, y) = (a.qtype + seq![':'] + a.qclass, b.qtype + seq![':'] + b.qclass);
    assert(question_key(a) =~= a.qname + seq![':'] + x);
    assert(question_key(b) =~= b.qname + seq![':'] + y);
    lemma_split(a.qname, x, b.qname, y);
    lemma_split(a.qtype, a.qclass, b.qtype, b.qclass);
}

/// An ordinary query has a key, made of the name, the type and the class of its
/// first question; nothing else has one.
pub proof fn law_key_is_the_first_question(query: &[u8], r: Option<Vec<u8>>)
    requires
        call_ensures(get_cache_key, (query,), r),
    ensures
        match parsed_dns(query@) {
            Ok(packet) => if is_ordinary(packet) {
                r matches Some(key) && key@ == joined(packet.questions[0])
            } else {
                r is None
            },
            Err(_) => r is None,
        },
{
    if let Ok(packet) = parsed_dns(query@) {
        lemma_key_is_joined(packet.questions[0]);
    }
}

/// The key of a packet is made of the name, the type and the class of its first
/// question, where it is an ordinary query.
pub proof fn law_key_of_packet_is_its_first_question(packet: DnsPacket, r: Option<Vec<u8>>)
    requires
        call_ensures(cache_key_of_packet, (&packet,), r),
    ensures
        is_ordinary(packet@) ==> (r matches Some(key) && key@ == joined(packet@.questions[0])),
        !is_ordinary(packet@) ==> r is None,
{
    lemma_key_is_joined(packet@.questions[0]);
}

/// Two ordinary queries have the same key if and only if they ask for the same
/// name, type and class, whatever their numbers and whatever else is in them.
pub proof fn law_keys_tell_questions_apart(
    first: &[u8],
    second: &[u8],
    r1: Option<Vec<u8>>,
    r2: Option<Vec<u8>>,
    p1: DnsPacketView,
    p2: DnsPacketView,
)
    requires
        call_ensures(get_cache_key, (first,), r1),
        call_ensures(get_cache_key, (second,), r2),
        parsed_dns(first@) == Ok::<DnsPacketView, Seq<char>>(p1),
        parsed_dns(second@) == Ok::<DnsPacketView, Seq<char>>(p2),
        is_ordinary(p1),
        is_ordinary(p2),
        has_plain_words(p1.questions[0]),
        has_plain_words(p2.questions[0]),
    ensures
        r1 is Some,
        r2 is Some,
        r1->0@ == r2->0@ <==> p1.questions[0].qname == p2.questions[0].qname
            && p1.questions[0].qtype == p2.questions[0].qtype && p1.questions[0].qclass
            == p2.questions[0].qclass,
{
    law_key_is_the_first_question(first, r1);
    law_key_is_the_first_question(second, r2);
    if r1->0@ == r2->0@ {
        lemma_joined_apart(p1.questions[0], p2.questions[0]);
    }
}

proof fn lemma_numbered(packet: Seq<u8>, xid: u16)
    requires
        packet.len() >= 2,
    ensures
        is_numbered(crate::dns_forwarder::with_xid(packet, xid), packet, xid),
{
}

/// A query whose question is remembered is answered at once: the one that asked
/// gets the remembered response, under the number of its query.
pub proof fn law_remembered_question_is_answered(
    query: &[u8],
    src: Endpoint,
    forwarder: &mut Forwarder,
    now: u64,
    r: QueryAction,
    packet: DnsPacketView,
)
    requires
        call_ensures(handle_client_query, (query, src, forwarder, now), r),
        old(forwarder).wf(),
        parsed_dns(query@) == Ok::<DnsPacketView, Seq<char>>(packet),
        is_ordinary(packet),
        old(forwarder).cache@.contains_key(joined(packet.questions[0])),
        old(forwarder).cache@[joined(packet.questions[0])].expiry > now,
    ensures
        r matches QueryAction::Respond { to, response } && to == src && response@.len() >= 2
            && response@[0] == query@[0] && response@[1] == query@[1] && response@.skip(2)
            == old(forwarder).cache@[joined(packet.questions[0])].response.skip(2),
        final(forwarder).cache@ == old(forwarder).cache@,
        final(forwarder).pending@ == old(forwarder).pending@,
        final(forwarder).upstream_servers@ == old(forwarder).upstream_servers@,
{
    lemma_key_is_joined(packet.questions[0]);
    let key = joined(packet.questions[0]);
    let kept = old(forwarder).cache@[key].response;
    if let QueryAction::Respond { response, .. } = r {
        assert(response@.skip(2) =~= kept.skip(2));
        assert(query@.len() >= 12);
    }
}

/// A query is answered from memory only with the response that is remembered
/// under its own name, type and class and has not run out.
pub proof fn law_answers_are_for_the_same_question(
    query: &[u8],
    src: Endpoint,
    forwarder: &mut Forwarder,
    now: u64,
    r: QueryAction,
)
    requires
        call_ensures(handle_client_query, (query, src, forwarder, now), r),
        r is Respond,
    ensures
        parsed_dns(query@) matches Ok(packet) && is_ordinary(packet)
            && old(forwarder).cache@.contains_key(joined(packet.questions[0]))
            && old(forwarder).cache@[joined(packet.questions[0])].expiry > now,
{
    if let Ok(packet) = parsed_dns(query@) {
        lemma_key_is_joined(packet.questions[0]);
    }
}

/// A query whose question is not remembered, or no longer, is forwarded: to the
/// first server that may be asked, under a number that no other query waits
/// under, and otherwise as it is. It waits, for three seconds at first, for an
/// answer to the one that asked. Only where too many queries wait, it is dropped.
pub proof fn law_other_questions_are_forwarded(
    query: &[u8],
    src: Endpoint,
    forwarder: &mut Forwarder,
    now: u64,
    r: QueryAction,
    packet: DnsPacketView,
)
    requires
        call_ensures(handle_client_query, (query, src, forwarder, now), r),
        parsed_dns(query@) == Ok::<DnsPacketView, Seq<char>>(packet),
        is_ordinary(packet),
        old(forwarder).cache@.contains_key(joined(packet.questions[0]))
            ==> old(forwarder).cache@[joined(packet.questions[0])].expiry <= now,
    ensures
        old(forwarder).pending@.dom().len() >= 4096 ==> r is Drop,
        old(forwarder).pending@.dom().len() < 4096 ==> {
            &&& r matches QueryAction::Forward { to, packet: out, xid, query: waiting }
            &&& to.port == 53
            &&& to.ip == waiting.upstream_servers@[0]
            &&& waiting.upstream_servers@ == upstream_of(old(forwarder).upstream_servers@)
            &&& xid != 0
            &&& !old(forwarder).pending@.contains_key(xid)
            &&& is_numbered(out@, query@, xid)
            &&& waiting.client_addr == src
            &&& waiting.client_xid == query@[0] * 256 + query@[1]
            &&& waiting.cache_key@ == joined(packet.questions[0])
            &&& waiting.query_payload@ == query@
            &&& waiting.current_server_idx == 0
            &&& waiting.deadline == now + 3_000_000_000
        },
        forall|key: Seq<u8>|
            key != joined(packet.questions[0]) ==> (#[trigger] final(forwarder).cache@.contains_key(
                key,
            ) <==> old(forwarder).cache@.contains_key(key)) && (old(forwarder).cache@.contains_key(
                key,
            ) ==> final(forwarder).cache@[key] == old(forwarder).cache@[key]),
        final(forwarder).pending@ == old(forwarder).pending@,
        final(forwarder).upstream_servers@ == old(forwarder).upstream_servers@,
{
    lemma_key_is_joined(packet.questions[0]);
    if query@.len() >= 2 {
        if let QueryAction::Forward { xid, .. } = r {
            lemma_numbered(query@, xid);
        }
    }
}

/// A query whose name, type or class differs from that of every question that is
/// remembered is not answered from memory, but forwarded while there is room.
pub proof fn law_new_question_is_not_answered_from_memory(
    query: &[u8],
    src: Endpoint,
    forwarder: &mut Forwarder,
    now: u64,
    r: QueryAction,
    packet: DnsPacketView,
    remembered: Map<Seq<u8>, DnsQuestionView>,
)
    requires
        call_ensures(handle_client_query, (query, src, forwarder, now), r),
        parsed_dns(query@) == Ok::<DnsPacketView, Seq<char>>(packet),
        is_ordinary(packet),
        has_plain_words(packet.questions[0]),
        forall|key: Seq<u8>| #[trigger]
            old(forwarder).cache@.contains_key(key) ==> {
                &&& remembered.contains_key(key)
                &&& key == joined(remembered[key])
                &&& has_plain_words(remembered[key])
                &&& remembered[key].qname != packet.questions[0].qname || remembered[key].qtype
                    != packet.questions[0].qtype || remembered[key].qclass
                    != packet.questions[0].qclass
            },
    ensures
        !(r is Respond),
        old(forwarder).pending@.dom().len() < 4096 ==> r is Forward,
{
    let key = joined(packet.questions[0]);
    if old(forwarder).cache@.contains_key(key) {
        lemma_joined_apart(remembered[key], packet.questions[0]);
    }
    law_other_questions_are_forwarded(query, src, forwarder, now, r, packet);
}

/// What is no ordinary query is dropped, and changes nothing.
pub proof fn law_other_packets_are_dropped(
    query: &[u8],
    src: Endpoint,
    forwarder: &mut Forwarder,
    now: u64,
    r: QueryAction,
)
    requires
        call_ensures(handle_client_query, (query, src, forwarder, now), r),
        parsed_dns(query@) matches Ok(packet) ==> !is_ordinary(packet),
    ensures
        r is Drop,
        final(forwarder).cache@ == old(forwarder).cache@,
        final(forwarder).pending@ == old(forwarder).pending@,
        final(forwarder).upstream_servers@ == old(forwarder).upstream_servers@,
{
}

/// A query that was sent waits under its number, and the others go on waiting.
pub proof fn law_sent_query_waits(xid: u16, query: PendingQuery, forwarder: &mut Forwarder, r: ())
    requires
        call_ensures(query_forwarded, (xid, query, forwarder), r),
    ensures
        final(forwarder).pending@.contains_key(xid),
        final(forwarder).pending@[xid] == query,
        forall|other: u16|
            other != xid ==> (#[trigger] final(forwarder).pending@.contains_key(other)
                <==> old(forwarder).pending@.contains_key(other)),
        forall|other: u16|
            other != xid && #[trigger] old(forwarder).pending@.contains_key(other)
                ==> final(forwarder).pending@[other] == old(forwarder).pending@[other],
        final(forwarder).cache@ == old(forwarder).cache@,
        final(forwarder).upstream_servers@ == old(forwarder).upstream_servers@,
{
}

/// A query is given a number that is not zero and that no other query waits
/// under, unless too many wait.
pub proof fn law_numbers_are_unique(pending: HashMap<u16, PendingQuery>, r: Option<u16>)
    requires
        call_ensures(allocate_unique_xid, (&pending,), r),
    ensures
        r is None <==> pending@.dom().len() >= 4096,
        r matches Some(xid) ==> xid != 0 && !pending@.contains_key(xid),
{
}

/// Which addresses a server may have, told by their four numbers.
pub proof fn law_servers_have_public_addresses(
    ip: Ipv4Addr,
    a: u8,
    b: u8,
    c: u8,
    d: u8,
    r: bool,
)
    requires
        call_ensures(is_valid_upstream_resolver, (ip,), r),
        ip.bits == a * 0x100_0000 + b * 0x1_0000 + c * 0x100 + d,
    ensures
        r == is_public(a, b, c, d),
{
    lemma_may_be_upstream(ip, a, b, c, d);
}

proof fn lemma_may_be_upstream(ip: Ipv4Addr, a: u8, b: u8, c: u8, d: u8)
    requires
        ip.bits == a * 0x100_0000 + b * 0x1_0000 + c * 0x100 + d,
    ensures
        may_be_upstream(ip) == is_public(a, b, c, d),
{
    assert(ip.bits / 0x100_0000 == a);
    assert(ip.bits / 0x1_0000 == a * 0x100 + b);
    assert(ip.bits / 0x100 == a * 0x1_0000 + b * 0x100 + c);
}

/// Whether an address may be that of a server on the Internet.
pub open spec fn is_public_address(ip: Ipv4Addr) -> bool {
    is_public(
        (ip.bits / 0x100_0000) as u8,
        (ip.bits / 0x1_0000 % 0x100) as u8,
        (ip.bits / 0x100 % 0x100) as u8,
        (ip.bits % 0x100) as u8,
    )
}

proof fn lemma_is_public_address(ip: Ipv4Addr)
    ensures
        may_be_upstream(ip) == is_public_address(ip),
{
    let n = ip.bits;
    let (a, b, c, d) = (
        (n / 0x100_0000) as u8,
        (n / 0x1_0000 % 0x100) as u8,
        (n / 0x100 % 0x100) as u8,
        (n % 0x100) as u8,
    );
    assert(n == a * 0x100_0000 + b * 0x1_0000 + c * 0x100 + d);
    lemma_may_be_upstream(ip, a, b, c, d);
}

/// Whether `chosen` are the positions of the public addresses among these, from
/// the first to the last.
pub open spec fn lists_public(chosen: Seq<int>, configured: Seq<Ipv4Addr>) -> bool {
    &&& forall|i: int|
        0 <= i < chosen.len() ==> 0 <= #[trigger] chosen[i] < configured.len()
            && is_public_address(configured[chosen[i]])
    &&& forall|i: int, j: int|
        0 <= i < j < chosen.len() ==> #[trigger] chosen[i] < #[trigger] chosen[j]
    &&& forall|k: int|
        0 <= k < configured.len() && is_public_address(#[trigger] configured[k])
            ==> chosen.contains(k)
}

proof fn lemma_public_filter(configured: Seq<Ipv4Addr>) -> (chosen: Seq<int>)
    ensures
        lists_public(chosen, configured),
        chosen.len() == configured.filter(|ip: Ipv4Addr| may_be_upstream(ip)).len(),
        forall|i: int|
            0 <= i < chosen.len() ==> configured.filter(|ip: Ipv4Addr| may_be_upstream(ip))[i]
                == configured[#[trigger] chosen[i]],
    decreases configured.len(),
{
    let valid = |ip: Ipv4Addr| may_be_upstream(ip);
    reveal(Seq::filter);
    if configured.len() == 0 {
        let chosen = Seq::<int>::empty();
        assert(lists_public(chosen, configured));
        chosen
    } else {
        let rest = configured.drop_last();
        let last = configured.len() - 1;
        let before = lemma_public_filter(rest);
        lemma_is_public_address(configured[last]);
        assert forall|k: int| 0 <= k < rest.len() implies rest[k] == configured[k] by {}
        if valid(configured.last()) {
            let chosen = before.push(last);
            assert(chosen[before.len() as int] == last);
            assert forall|k: int|
                0 <= k < configured.len() && is_public_address(
                    #[trigger] configured[k],
                ) implies chosen.contains(k) by {
                if k < last {
                    assert(rest[k] == configured[k]);
                    let i = choose|i: int| 0 <= i < before.len() && before[i] == k;
                    assert(chosen[i] == k);
                }
            }
            assert(lists_public(chosen, configured));
            chosen
        } else {
            assert forall|k: int|
                0 <= k < configured.len() && is_public_address(
                    #[trigger] configured[k],
                ) implies before.contains(k) by {
                assert(rest[k] == configured[k]);
            }
            assert(lists_public(before, configured));
            before
        }
    }
}

/// The servers that are asked are the configured ones with public addresses, in
/// the order in which they are configured; where there is none, it is 8.8.8.8.
pub proof fn law_configured_servers_are_asked_in_order(configured: &[Ipv4Addr], r: Vec<Ipv4Addr>)
    requires
        call_ensures(get_upstream_resolvers, (configured,), r),
    ensures
        (forall|k: int|
            0 <= k < configured@.len() ==> !is_public_address(#[trigger] configured@[k])) ==> r@
            == seq![Ipv4Addr { bits: 0x0808_0808 }],
        (exists|k: int|
            0 <= k < configured@.len() && is_public_address(#[trigger] configured@[k]))
            ==> exists|chosen: Seq<int>| #[trigger]
            lists_public(chosen, configured@) && chosen.len() == r@.len() && forall|i: int|
                0 <= i < r@.len() ==> r@[i] == configured@[#[trigger] chosen[i]],
{
    lemma_upstream_of(configured@);
}

proof fn lemma_upstream_of(configured: Seq<Ipv4Addr>)
    ensures
        (forall|k: int|
            0 <= k < configured.len() ==> !is_public_address(#[trigger] configured[k]))
            ==> upstream_of(configured) == seq![Ipv4Addr { bits: 0x0808_0808 }],
        (exists|k: int|
            0 <= k < configured.len() && is_public_address(#[trigger] configured[k]))
            ==> exists|chosen: Seq<int>| #[trigger]
            lists_public(chosen, configured) && chosen.len() == upstream_of(configured).len()
                && forall|i: int|
                0 <= i < chosen.len() ==> upstream_of(configured)[i]
                    == configured[#[trigger] chosen[i]],
{
    let chosen = lemma_public_filter(configured);
    if exists|k: int| 0 <= k < configured.len() && is_public_address(#[trigger] configured[k]) {
        let k = choose|k: int|
            0 <= k < configured.len() && is_public_address(#[trigger] configured[k]);
        assert(chosen.contains(k));
        assert(chosen.len() > 0);
    } else if chosen.len() > 0 {
        assert(is_public_address(configured[chosen[0]]));
    }
}

/// The first server that is asked is the first configured one with a public
/// address, or else 8.8.8.8.
pub proof fn law_first_server_is_asked_first(
    query: &[u8],
    src: Endpoint,
    forwarder: &mut Forwarder,
    now: u64,
    r: QueryAction,
    first: int,
)
    requires
        call_ensures(handle_client_query, (query, src, forwarder, now), r),
        r is Forward,
        0 <= first <= old(forwarder).upstream_servers@.len(),
        forall|k: int|
            0 <= k < first ==> !is_public_address(#[trigger] old(forwarder).upstream_servers@[k]),
        first < old(forwarder).upstream_servers@.len() ==> is_public_address(
            old(forwarder).upstream_servers@[first],
        ),
    ensures
        r matches QueryAction::Forward { to, .. } && to.port == 53 && to.ip == if first
            < old(forwarder).upstream_servers@.len() {
            old(forwarder).upstream_servers@[first]
        } else {
            Ipv4Addr { bits: 0x0808_0808 }
        },
{
    let configured = old(forwarder).upstream_servers@;
    lemma_upstream_of(configured);
    if first < configured.len() {
        let chosen = choose|chosen: Seq<int>| #[trigger]
            lists_public(chosen, configured) && chosen.len() == upstream_of(configured).len()
                && forall|i: int|
                0 <= i < chosen.len() ==> upstream_of(configured)[i]
                    == configured[#[trigger] chosen[i]];
        assert(chosen.contains(first));
        let i = choose|i: int| 0 <= i < chosen.len() && chosen[i] == first;
        assert(chosen[0] >= first);
        assert(chosen[0] <= chosen[i]);
    }
}

/// The reply of the server that is being asked reaches the one that asked, under
/// the number of its query and otherwise as it is, and ends the wait.
pub proof fn law_reply_reaches_the_one_that_asked(
    reply: &[u8],
    from: Endpoint,
    forwarder: &mut Forwarder,
    now: u64,
    r: Option<(Endpoint, Vec<u8>)>,
    xid: u16,
)
    requires
        call_ensures(handle_upstream_reply, (reply, from, forwarder, now), r),
        reply@.len() >= 12,
        xid == reply@[0] * 256 + reply@[1],
        old(forwarder).pending@.contains_key(xid),
        from.port == 53,
        ({
            let query = old(forwarder).pending@[xid];
            from.ip == query.upstream_servers@[query.current_server_idx as int]
        }),
    ensures
        r matches Some((to, response)) && to == old(forwarder).pending@[xid].client_addr
            && is_numbered(response@, reply@, old(forwarder).pending@[xid].client_xid),
        final(forwarder).pending@ == old(forwarder).pending@.remove(xid),
        final(forwarder).upstream_servers@ == old(forwarder).upstream_servers@,
        forall|key: Seq<u8>| #[trigger]
            final(forwarder).cache@.contains_key(key) && key != old(
                forwarder,
            ).pending@[xid].cache_key@ ==> old(forwarder).cache@.contains_key(key)
                && final(forwarder).cache@[key] == old(forwarder).cache@[key],
        match parsed_dns(reply@) {
            Ok(packet) => packet.ttls.contains(0) ==> final(forwarder).cache@ == old(
                forwarder,
            ).cache@,
            Err(_) => final(forwarder).cache@ == old(forwarder).cache@,
        },
{
    if let Ok(packet) = parsed_dns(reply@) {
        lemma_kept(packet.ttls, 0);
    }
    lemma_numbered(reply@, old(forwarder).pending@[xid].client_xid);
}

/// A reply from anybody but the server that is being asked, and one under a
/// number that nobody waits for, reaches nobody and is not remembered. The query
/// under its number is waited for no longer.
pub proof fn law_other_replies_are_not_believed(
    reply: &[u8],
    from: Endpoint,
    forwarder: &mut Forwarder,
    now: u64,
    r: Option<(Endpoint, Vec<u8>)>,
    xid: u16,
)
    requires
        call_ensures(handle_upstream_reply, (reply, from, forwarder, now), r),
        reply@.len() >= 2 ==> xid == reply@[0] * 256 + reply@[1],
        reply@.len() < 12 || !old(forwarder).pending@.contains_key(xid) || from.port != 53 || ({
            let query = old(forwarder).pending@[xid];
            from.ip != query.upstream_servers@[query.current_server_idx as int]
        }),
    ensures
        r is None,
        final(forwarder).cache@ == old(forwarder).cache@,
        final(forwarder).upstream_servers@ == old(forwarder).upstream_servers@,
        reply@.len() < 12 ==> final(forwarder).pending@ == old(forwarder).pending@,
        reply@.len() >= 12 ==> final(forwarder).pending@ == old(forwarder).pending@.remove(xid),
{
    if !old(forwarder).pending@.contains_key(xid) {
        assert(old(forwarder).pending@.remove(xid) =~= old(forwarder).pending@);
    }
}

/// Whether `secs` is how long answers with these times to live are kept: as long
/// as the least of them, but an hour at most, and half a minute where there are
/// none.
pub open spec fn is_kept_for(secs: u32, ttls: Seq<u32>) -> bool {
    if ttls.len() == 0 {
        secs == 30
    } else {
        &&& secs > 0
        &&& secs <= 3600
        &&& forall|i: int| 0 <= i < ttls.len() ==> secs <= #[trigger] ttls[i]
        &&& secs == 3600 || ttls.contains(secs)
    }
}

proof fn lemma_least_is_one(ttls: Seq<u32>)
    requires
        ttls.len() > 0,
    ensures
        ttls.contains(least_ttl(ttls)),
        forall|i: int| 0 <= i < ttls.len() ==> least_ttl(ttls) <= #[trigger] ttls[i],
    decreases ttls.len(),
{
    if ttls.len() == 1 {
        assert(ttls[0] == least_ttl(ttls));
    } else {
        let rest = ttls.drop_last();
        lemma_least_is_one(rest);
        let j = choose|j: int| 0 <= j < rest.len() && rest[j] == least_ttl(rest);
        assert(ttls[j] == least_ttl(rest));
        assert(ttls[ttls.len() - 1] == ttls.last());
        assert forall|i: int| 0 <= i < ttls.len() implies least_ttl(ttls) <= #[trigger] ttls[i] by {
            if i < ttls.len() - 1 {
                assert(rest[i] == ttls[i]);
            }
        }
    }
}

proof fn lemma_kept(ttls: Seq<u32>, secs: u32)
    ensures
        is_kept_for(secs, ttls) <==> capped_ttl(ttls) == Some(secs),
        ttls.contains(0) <==> capped_ttl(ttls) is None,
{
    if ttls.len() > 0 {
        lemma_least_is_one(ttls);
        let least = least_ttl(ttls);
        let j = choose|j: int| 0 <= j < ttls.len() && ttls[j] == least;
        assert(ttls[j] == least);
        if is_kept_for(secs, ttls) && ttls.contains(secs) {
            let i = choose|i: int| 0 <= i < ttls.len() && ttls[i] == secs;
            assert(least <= ttls[i]);
        }
    }
}

/// An answer is remembered, as it came, for as long as the least of its records
/// says, but for an hour at most, and for half a minute where it has none. An
/// answer with a record that must not be kept, and what is no DNS packet, leaves
/// the cache as it was.
pub proof fn law_answers_are_kept_as_long_as_they_say(
    key: Vec<u8>,
    response: Vec<u8>,
    cache: &mut DnsCache,
    now: u64,
    r: (),
    secs: u32,
)
    requires
        call_ensures(insert_cache, (key, response, cache, now), r),
        now + 3_600_000_000_000 <= u64::MAX,
    ensures
        match parsed_dns(response@) {
            Ok(packet) => if packet.ttls.contains(0) {
                final(cache)@ == old(cache)@
            } else {
                is_kept_for(secs, packet.ttls) ==> {
                    &&& final(cache)@.contains_key(key@)
                    &&& final(cache)@[key@].response == response@
                    &&& final(cache)@[key@].expiry == now + secs * 1_000_000_000
                }
            },
            Err(_) => final(cache)@ == old(cache)@,
        },
        forall|other: Seq<u8>| #[trigger]
            final(cache)@.contains_key(other) && other != key@ ==> old(cache)@.contains_key(other)
                && final(cache)@[other] == old(cache)@[other],
        old(cache)@.dom().len() < 4096 || old(cache)@.contains_key(key@) ==> forall|
            other: Seq<u8>,
        |
            #[trigger] old(cache)@.contains_key(other) && other != key@
                ==> final(cache)@.contains_key(other),
{
    if let Ok(packet) = parsed_dns(response@) {
        lemma_kept(packet.ttls, secs);
    }
}

/// The reply of the server that is being asked is remembered under the question
/// that was asked, for as long as it says.
pub proof fn law_replies_are_remembered(
    reply: &[u8],
    from: Endpoint,
    forwarder: &mut Forwarder,
    now: u64,
    r: Option<(Endpoint, Vec<u8>)>,
    packet: DnsPacketView,
    secs: u32,
)
    requires
        call_ensures(handle_upstream_reply, (reply, from, forwarder, now), r),
        r is Some,
        parsed_dns(reply@) == Ok::<DnsPacketView, Seq<char>>(packet),
        is_kept_for(secs, packet.ttls),
        now + 3_600_000_000_000 <= u64::MAX,
    ensures
        ({
            let query = old(forwarder).pending@[(reply@[0] * 256 + reply@[1]) as u16];
            &&& final(forwarder).cache@.contains_key(query.cache_key@)
            &&& final(forwarder).cache@[query.cache_key@].response == reply@
            &&& final(forwarder).cache@[query.cache_key@].expiry == now + secs * 1_000_000_000
        }),
{
    lemma_kept(packet.ttls, secs);
}

/// What is remembered is found under its own key until it has run out, and
/// nothing else is.
pub proof fn law_lookup_finds_what_is_kept(
    key: &[u8],
    cache: &mut DnsCache,
    now: u64,
    r: Option<Vec<u8>>,
)
    requires
        call_ensures(lookup_cache, (key, cache, now), r),
    ensures
        r is Some <==> old(cache)@.contains_key(key@) && old(cache)@[key@].expiry > now,
        r matches Some(response) ==> response@ == old(cache)@[key@].response && final(cache)@
            == old(cache)@,
        forall|other: Seq<u8>|
            other != key@ ==> (#[trigger] final(cache)@.contains_key(other)
                <==> old(cache)@.contains_key(other)),
{
}

/// Clearing away drops exactly what has run out.
pub proof fn law_clearing_drops_what_ran_out(cache: &mut DnsCache, now: u64, r: ())
    requires
        call_ensures(evict_expired_cache, (cache, now), r),
    ensures
        forall|key: Seq<u8>| #[trigger]
            final(cache)@.contains_key(key) <==> old(cache)@.contains_key(key)
                && old(cache)@[key].expiry > now,
        forall|key: Seq<u8>| #[trigger]
            final(cache)@.contains_key(key) ==> final(cache)@[key] == old(cache)@[key],
{
}

/// When its server has not answered in time, a query is sent to the next one, as
/// the client sent it, and waits three seconds more; where there is no next one,
/// it is forgotten. While there is time, nothing happens to it.
pub proof fn law_next_server_is_asked_when_time_is_up(
    forwarder: &mut Forwarder,
    now: u64,
    step: ForwarderStep,
    xid: u16,
)
    requires
        call_ensures(run_forwarder_loop, (ForwarderEvent::Tick, forwarder, now), step),
        old(forwarder).wf(),
        now + 3_000_000_000 <= u64::MAX,
        old(forwarder).pending@.contains_key(xid),
    ensures
        ({
            let query = old(forwarder).pending@[xid];
            let next = query.current_server_idx + 1;
            if query.deadline > now {
                &&& final(forwarder).pending@.contains_key(xid)
                &&& final(forwarder).pending@[xid] == query
            } else if next < query.upstream_servers@.len() {
                &&& final(forwarder).pending@.contains_key(xid)
                &&& final(forwarder).pending@[xid] == (PendingQuery {
                    current_server_idx: next as usize,
                    deadline: (now + 3_000_000_000) as u64,
                    ..query
                })
                &&& exists|i: int|
                    0 <= i < step.sends@.len() && (#[trigger] step.sends@[i]).0.ip
                        == query.upstream_servers@[next] && step.sends@[i].0.port == 53
                        && is_numbered(step.sends@[i].1@, query.query_payload@, xid)
            } else {
                !final(forwarder).pending@.contains_key(xid)
            }
        }),
        !step.stop,
{
    let query = old(forwarder).pending@[xid];
    let next = query.current_server_idx + 1;
    assert(query.wf());
    assert(query.upstream_servers.len() == query.upstream_servers@.len());
    if query.deadline <= now && next < query.upstream_servers@.len() {
        let before = old(forwarder).pending@;
        let after = final(forwarder).pending@;
        let xids = choose|xids: Seq<u16>|
            {
                &&& #[trigger] sends_queries(step.sends@, after, xids)
                &&& xids.no_duplicates()
                &&& forall|x: u16| #[trigger]
                    xids.contains(x) <==> crate::dns_forwarder::is_retried(before, x, now)
            };
        assert(crate::dns_forwarder::is_retried(before, xid, now));
        assert(xids.contains(xid));
        let i = choose|i: int| 0 <= i < xids.len() && xids[i] == xid;
        assert(step.sends@[i].0 == after[xids[i]].server());
        lemma_numbered(query.query_payload@, xid);
    }
}

/// Nothing is sent but queries whose time is up, each to its next server.
pub proof fn law_only_late_queries_are_sent_again(
    forwarder: &mut Forwarder,
    now: u64,
    step: ForwarderStep,
    i: int,
)
    requires
        call_ensures(run_forwarder_loop, (ForwarderEvent::Tick, forwarder, now), step),
        old(forwarder).wf(),
        0 <= i < step.sends@.len(),
    ensures
        exists|xid: u16|
            {
                let query = old(forwarder).pending@[xid];
                &&& #[trigger] old(forwarder).pending@.contains_key(xid)
                &&& query.deadline <= now
                &&& query.current_server_idx + 1 < query.upstream_servers@.len()
                &&& step.sends@[i].0.ip == query.upstream_servers@[query.current_server_idx + 1]
                &&& step.sends@[i].0.port == 53
                &&& is_numbered(step.sends@[i].1@, query.query_payload@, xid)
            },
{
    let before = old(forwarder).pending@;
    let after = final(forwarder).pending@;
    let xids = choose|xids: Seq<u16>|
        {
            &&& #[trigger] sends_queries(step.sends@, after, xids)
            &&& xids.no_duplicates()
            &&& forall|x: u16| #[trigger]
                xids.contains(x) <==> crate::dns_forwarder::is_retried(before, x, now)
        };
    let xid = xids[i];
    assert(xids.contains(xid));
    assert(step.sends@[i].0 == after[xids[i]].server());
    let query = before[xid];
    assert(before.contains_key(xid) && query.wf());
    assert(query.upstream_servers.len() == query.upstream_servers@.len());
    lemma_numbered(query.query_payload@, xid);
}

/// The servers that the parent names are the ones that are configured from then
/// on; nothing else that the parent says changes anything, and the end of the
/// parent is the end of the forwarder.
pub proof fn law_parent_sets_the_servers(
    forwarder: &mut Forwarder,
    event: ForwarderEvent,
    now: u64,
    step: ForwarderStep,
)
    requires
        call_ensures(run_forwarder_loop, (event, forwarder, now), step),
        !(event is Tick),
    ensures
        step.stop <==> event is ParentGone,
        step.sends@.len() == 0,
        final(forwarder).cache@ == old(forwarder).cache@,
        final(forwarder).pending@ == old(forwarder).pending@,
        final(forwarder).upstream_servers@ == match event {
            ForwarderEvent::Parent(DnsParentToWorkerMsg::SetUpstreamResolvers { servers }) =>
                servers@,
            _ => old(forwarder).upstream_servers@,
        },
{
}

/// Whether `ip` is the first address among these records.
pub open spec fn is_first_address(ip: Ipv4Addr, records: Seq<Option<u32>>) -> bool {
    exists|i: int|
        0 <= i < records.len() && #[trigger] records[i] == Some(ip.bits) && forall|j: int|
            0 <= j < i ==> #[trigger] records[j] is None
}

proof fn lemma_first_address(records: Seq<Option<u32>>)
    ensures
        match crate::dns::first_address(records) {
            Some(ip) => is_first_address(ip, records),
            None => forall|i: int| 0 <= i < records.len() ==> #[trigger] records[i] is None,
        },
    decreases records.len(),
{
    if records.len() > 0 && records[0] is None {
        let rest = records.drop_first();
        lemma_first_address(rest);
        match crate::dns::first_address(rest) {
            Some(ip) => {
                let i = choose|i: int|
                    0 <= i < rest.len() && #[trigger] rest[i] == Some(ip.bits) && forall|j: int|
                        0 <= j < i ==> #[trigger] rest[j] is None;
                assert(records[i + 1] == Some(ip.bits));
                assert forall|j: int| 0 <= j < i + 1 implies #[trigger] records[j] is None by {
                    if j > 0 {
                        assert(rest[j - 1] == records[j]);
                    }
                }
            },
            None => {
                assert forall|i: int| 0 <= i < records.len() implies #[trigger] records[i] is None by {
                    if i > 0 {
                        assert(rest[i - 1] == records[i]);
                    }
                }
            },
        }
    } else if records.len() > 0 {
        assert(records[0] == Some((records[0]->0)));
    }
}

/// The address of a host is the first address in the reply, where the reply has
/// the number of the query and an address; otherwise there is none.
pub proof fn law_address_is_the_first_in_the_reply(
    buf: &[u8],
    query_id: u16,
    host: &str,
    r: Result<Ipv4Addr, String>,
    ip: Ipv4Addr,
)
    requires
        call_ensures(parse_dns_a_record_response, (buf, query_id, host), r),
    ensures
        r == Ok::<Ipv4Addr, String>(ip) <==> (parsed_dns(buf@) matches Ok(packet) && packet.id
            == query_id && is_first_address(ip, packet.addresses)),
{
    if let Ok(packet) = parsed_dns(buf@) {
        lemma_first_address(packet.addresses);
        if is_first_address(ip, packet.addresses) {
            let i = choose|i: int|
                0 <= i < packet.addresses.len() && #[trigger] packet.addresses[i] == Some(ip.bits)
                    && forall|j: int| 0 <= j < i ==> #[trigger] packet.addresses[j] is None;
            assert(!(packet.addresses[i] is None));
            let found = crate::dns::first_address(packet.addresses)->0;
            let k = choose|k: int|
                0 <= k < packet.addresses.len() && #[trigger] packet.addresses[k] == Some(
                    found.bits,
                ) && forall|j: int| 0 <= j < k ==> #[trigger] packet.addresses[j] is None;
            assert(i == k);
        }
    }
}

/// Only the forwarder on this host, at 127.0.0.1, is believed about the address
/// of a host.
pub proof fn law_only_the_local_forwarder_is_believed(
    from: Endpoint,
    buf: &[u8],
    query_id: u16,
    host: &str,
    r: Result<Ipv4Addr, String>,
    direct: Result<Ipv4Addr, String>,
)
    requires
        call_ensures(accept_dns_reply, (from, buf, query_id, host), r),
        call_ensures(parse_dns_a_record_response, (buf, query_id, host), direct),
    ensures
        from.ip.bits != 0x7f00_0001 || from.port != 53 ==> r is Err,
        from.ip.bits == 0x7f00_0001 && from.port == 53 ==> r is Ok == direct is Ok,
        from.ip.bits == 0x7f00_0001 && from.port == 53 && r is Ok ==> r->Ok_0 == direct->Ok_0,
{
}

/// The router's own query asks for the IPv4 address of the host and nothing else,
/// under its number, and the forwarder knows it by that question.
pub proof fn law_own_query_asks_for_the_host(
    query_id: u16,
    host: &str,
    r: Result<Vec<u8>, String>,
    sent: &[u8],
    key: Option<Vec<u8>>,
)
    requires
        call_ensures(build_dns_a_query, (query_id, host), r),
        r matches Ok(query) && sent@ == query@,
        plain_name(host@),
        call_ensures(get_cache_key, (sent,), key),
    ensures
        parsed_dns(sent@) matches Ok(packet) && packet.id == query_id && packet.opcode == 0
            && packet.questions.len() == 1 && packet.questions[0].qname == host@
            && packet.questions[0].qtype == "A"@ && packet.questions[0].qclass == "IN"@,
        key matches Some(bytes) && bytes@ == encode_utf8(host@) + seq![
            58u8,
            65u8,
            58u8,
            73u8,
            78u8,
        ],
{
    law_key_is_the_first_question(sent, key);
    reveal_strlit("A");
    reveal_strlit("IN");
    vstd::utf8::is_ascii_chars_encode_utf8("A"@);
    vstd::utf8::is_ascii_chars_encode_utf8("IN"@);
    assert(encode_utf8("A"@) =~= seq![65u8]);
    assert(encode_utf8("IN"@) =~= seq![73u8, 78u8]);
    assert(key->0@ =~= encode_utf8(host@) + seq![58u8, 65u8, 58u8, 73u8, 78u8]);
}

/// The first address among the answers is found, and none where there is none.
pub proof fn law_first_answer_is_found(records: Vec<Option<u32>>, r: Option<Ipv4Addr>)
    requires
        call_ensures(find_first_a_record, (&records,), r),
    ensures
        match r {
            Some(ip) => is_first_address(ip, records@),
            None => forall|i: int| 0 <= i < records@.len() ==> #[trigger] records@[i] is None,
        },
{
    lemma_first_address(records@);
}

/// A packet gives the address of a host where it has the number of the query and
/// an address; otherwise it is told what is wrong.
pub proof fn law_packet_gives_its_first_address(
    packet: DnsPacket,
    query_id: u16,
    host: &str,
    r: Result<Ipv4Addr, String>,
)
    requires
        call_ensures(address_from_packet, (&packet, query_id, host), r),
    ensures
        packet.id != query_id ==> (r matches Err(text) && text@ == "Transaction ID mismatch"@),
        packet.id == query_id ==> match r {
            Ok(ip) => is_first_address(ip, packet.addresses@),
            Err(text) => text@ == "No A record resolved for "@ + host@ && forall|i: int|
                0 <= i < packet.addresses@.len() ==> #[trigger] packet.addresses@[i] is None,
        },
{
    lemma_first_address(packet.addresses@);
}

/// What is wrong with a reply is told.
pub proof fn law_wrong_replies_are_told(
    from: Endpoint,
    buf: &[u8],
    query_id: u16,
    host: &str,
    r: Result<Ipv4Addr, String>,
    direct: Result<Ipv4Addr, String>,
)
    requires
        call_ensures(accept_dns_reply, (from, buf, query_id, host), r),
        call_ensures(parse_dns_a_record_response, (buf, query_id, host), direct),
    ensures
        from.ip.bits != 0x7f00_0001 || from.port != 53 ==> r->Err_0@
            == "Received packet from unexpected source"@,
        from.ip.bits == 0x7f00_0001 && from.port == 53 && r is Err ==> r->Err_0@ == direct->Err_0@,
        match parsed_dns(buf@) {
            Err(why) => direct matches Err(text) && text@ == "Failed to parse DNS response: "@
                + why,
            Ok(packet) => packet.id != query_id ==> (direct matches Err(text) && text@
                == "Transaction ID mismatch"@),
        },
{
}

/// The router asks the forwarder on the same host.
pub proof fn law_router_asks_itself(r: Endpoint)
    requires
        call_ensures(local_dns_server, (), r),
    ensures
        r.ip.bits == 0x7f00_0001,
        r.port == 53,
{
}

/// A query that is too long is not built.
pub proof fn law_long_queries_are_not_built(query_id: u16, host: &str, r: Result<Vec<u8>, String>)
    requires
        call_ensures(build_dns_a_query, (query_id, host), r),
    ensures
        r is Err <==> encode_utf8(host@).len() + 18 > 512,
        r matches Err(text) ==> text@ == "Failed to build DNS query packet"@,
        r matches Ok(query) ==> query@.len() == encode_utf8(host@).len() + 18 && query@[0] * 256
            + query@[1] == query_id,
{
}

/// Bytes are the same where each is.
pub proof fn law_same_bytes(a: &[u8], b: &[u8], same: bool, copy: Vec<u8>)
    requires
        call_ensures(same_bytes, (a, b), same),
        call_ensures(copy_bytes, (a,), copy),
    ensures
        same <==> a@.len() == b@.len() && forall|i: int|
            0 <= i < a@.len() ==> #[trigger] a@[i] == b@[i],
        copy@ == a@,
{
    if a@.len() == b@.len() && forall|i: int| 0 <= i < a@.len() ==> #[trigger] a@[i] == b@[i] {
        assert(a@ =~= b@);
    }
}

/// A new cache is empty, and so is a new forwarder.
pub proof fn law_nothing_is_remembered_at_first(cache: DnsCache, forwarder: Forwarder, key: Seq<u8>, xid: u16)
    requires
        call_ensures(DnsCache::new, (), cache),
        call_ensures(Forwarder::new, (), forwarder),
    ensures
        !cache@.contains_key(key),
        !forwarder.cache@.contains_key(key),
        !forwarder.pending@.contains_key(xid),
        forwarder.upstream_servers@.len() == 0,
        forwarder.wf(),
{
}

/// What is put into the cache is found there under its key, and the rest is as it
/// was.
pub proof fn law_cache_keeps_what_is_put_in(
    cache: &mut DnsCache,
    key: Vec<u8>,
    entry: CacheEntry,
    r: (),
    other: &[u8],
    seen: DnsCache,
    has: bool,
    got: Option<&CacheEntry>,
)
    requires
        call_ensures(DnsCache::insert, (cache, key, entry), r),
        seen == *final(cache),
        call_ensures(DnsCache::contains_key, (&seen, other), has),
        call_ensures(DnsCache::get, (&seen, other), got),
    ensures
        has == got is Some,
        other@ == key@ ==> (got matches Some(e) && e.response@ == entry.response@ && e.expiry
            == entry.expiry),
        other@ != key@ ==> has == old(cache)@.contains_key(other@),
        other@ != key@ ==> (got matches Some(e) ==> e.response@ == old(cache)@[other@].response
            && e.expiry == old(cache)@[other@].expiry),
{
}

/// The size of the cache is the number of keys in it.
pub proof fn law_cache_counts_its_keys(cache: DnsCache, r: usize)
    requires
        call_ensures(DnsCache::len, (&cache,), r),
    ensures
        r == cache@.dom().len(),
{
}

/// Answers are kept for as long as the least of their times to live, but for an
/// hour at most, and for half a minute where there are none; not at all where one
/// of them is zero.
pub proof fn law_least_time_counts(ttls: Vec<u32>, r: Option<u32>, secs: u32)
    requires
        call_ensures(cache_ttl, (&ttls,), r),
    ensures
        r == Some(secs) <==> is_kept_for(secs, ttls@),
        r is None <==> ttls@.contains(0),
{
    lemma_kept(ttls@, secs);
}

/// Something that is to be remembered for some seconds is remembered for so long,
/// and nothing is where it is not to be.
pub proof fn law_remembered_for_its_time(
    key: Vec<u8>,
    response: Vec<u8>,
    ttl: Option<u32>,
    cache: &mut DnsCache,
    now: u64,
    r: (),
)
    requires
        call_ensures(remember, (key, response, ttl, cache, now), r),
        now + 3_600_000_000_000 <= u64::MAX,
    ensures
        ttl is None ==> final(cache)@ == old(cache)@,
        ttl matches Some(secs) ==> secs <= 3600 ==> {
            &&& final(cache)@.contains_key(key@)
            &&& final(cache)@[key@].response == response@
            &&& final(cache)@[key@].expiry == now + secs * 1_000_000_000
        },
{
}

/// Where the cache is full, what has run out makes room; where nothing has, the
/// answer that runs out first, and no other.
pub proof fn law_full_cache_makes_room(
    key: Vec<u8>,
    response: Vec<u8>,
    secs: u32,
    cache: &mut DnsCache,
    now: u64,
    r: (),
    lost: Seq<u8>,
    other: Seq<u8>,
)
    requires
        call_ensures(remember, (key, response, Some(secs), cache, now), r),
        old(cache)@.dom().len() >= 4096,
        !old(cache)@.contains_key(key@),
        old(cache)@.contains_key(lost),
        old(cache)@.contains_key(other),
        lost != other,
    ensures
        old(cache)@[lost].expiry <= now ==> !final(cache)@.contains_key(lost),
        old(cache)@[lost].expiry > now && old(cache)@.dom().filter(
            |k: Seq<u8>| old(cache)@[k].expiry > now,
        ).len() < 4096 ==> final(cache)@.contains_key(lost),
        old(cache)@[lost].expiry > now && !final(cache)@.contains_key(lost) && old(
            cache,
        )@[other].expiry > now ==> final(cache)@.contains_key(other) && old(cache)@[lost].expiry
            <= old(cache)@[other].expiry,
        old(cache)@.dom().filter(|k: Seq<u8>| old(cache)@[k].expiry > now).len() >= 4096
            ==> exists|gone: Seq<u8>| #[trigger]
            old(cache)@.contains_key(gone) && !final(cache)@.contains_key(gone),
{
    let before = old(cache)@;
    let live = unexpired(before, now);
    assert(live.dom() =~= before.dom().filter(|k: Seq<u8>| before[k].expiry > now));
    let room = choose|room: Map<Seq<u8>, EntryView>|
        {
            &&& #[trigger] makes_room(before, key@, now, room)
            &&& final(cache)@ == room.insert(
                key@,
                EntryView { response: response@, expiry: (now + secs * 1_000_000_000) as u64 },
            )
        };
    if live.dom().len() >= 4096 {
        let oldest = choose|oldest: Seq<u8>| #[trigger]
            is_oldest(live, oldest) && room == live.remove(oldest);
        assert(live.contains_key(oldest));
        assert(before.contains_key(oldest) && !final(cache)@.contains_key(oldest));
        if live.contains_key(other) {
            assert(live[oldest].expiry <= live[other].expiry);
        }
    }
}

/// The number of a query is the first free one from a given number on, counted
/// round.
pub proof fn law_first_free_number_is_taken(
    pending: HashMap<u16, PendingQuery>,
    start: u16,
    r: u16,
    other: u16,
)
    requires
        call_ensures(first_free_xid, (&pending, start), r),
        other != 0,
        !pending@.contains_key(other),
    ensures
        r != 0,
        !pending@.contains_key(r),
        start <= other ==> start <= r <= other,
        other < start ==> r >= start || r <= other,
{
    let n = choose|n: int|
        0 <= n && r == #[trigger] crate::dns_forwarder::stepped(start, n) && forall|m: int|
            0 <= m < n ==> !crate::dns_forwarder::is_free(
                pending@,
                #[trigger] crate::dns_forwarder::stepped(start, m),
            );
    let m: int = if start <= other {
        other - start
    } else {
        other + 0x1_0000 - start
    };
    assert(crate::dns_forwarder::stepped(start, m) == other);
    assert(crate::dns_forwarder::is_free(pending@, other));
    assert(n <= m);
}

/// What becomes of the waiting queries when time is up: the next server is asked
/// for each, for three seconds more; where there is no next one, the query is
/// forgotten.
pub proof fn law_late_queries_go_to_the_next_server(
    pending: &mut HashMap<u16, PendingQuery>,
    now: u64,
    r: Vec<(Endpoint, Vec<u8>)>,
    xid: u16,
)
    requires
        call_ensures(check_pending_timeouts, (pending, now), r),
        now + 3_000_000_000 <= u64::MAX,
    ensures
        ({
            let query = old(pending)@[xid];
            let next = query.current_server_idx + 1;
            final(pending)@.contains_key(xid) <==> old(pending)@.contains_key(xid) && (
            query.deadline > now || next < query.upstream_servers@.len())
        }),
        final(pending)@.contains_key(xid) ==> {
            let query = old(pending)@[xid];
            let next = query.current_server_idx + 1;
            final(pending)@[xid] == if query.deadline > now {
                query
            } else {
                PendingQuery {
                    current_server_idx: next as usize,
                    deadline: (now + 3_000_000_000) as u64,
                    ..query
                }
            }
        },
{
    let query = old(pending)@[xid];
    assert(query.upstream_servers.len() == query.upstream_servers@.len());
}

} // verus!
