//! DNS packets as far as the forwarder and the resolver read them.

use crate::addr::{spec_ipv4, Endpoint, Ipv4Addr};
use crate::packet::be16;
use dns_parser::{Question, RData, ResourceRecord};
use vstd::prelude::*;

verus! {

/// The UDP port of a DNS server.
pub const DNS_PORT: u16 = 53;

/// The length of the header of a DNS packet.
pub const DNS_HEADER_SIZE: usize = 12;

/// The operation code of an ordinary query.
pub const OPCODE_STANDARD_QUERY: u16 = 0;

/// What a DNS packet asks for: a name, and the words for a type and a class of
/// records.
#[derive(Clone, Debug, PartialEq, Eq)]
pub struct DnsQuestion {
    pub qname: String,
    pub qtype: String,
    pub qclass: String,
}

/// What a DNS packet asks for, with its words as sequences.
pub struct DnsQuestionView {
    pub qname: Seq<char>,
    pub qtype: Seq<char>,
    pub qclass: Seq<char>,
}

impl View for DnsQuestion {
    type V = DnsQuestionView;

    open spec fn view(&self) -> DnsQuestionView {
        DnsQuestionView { qname: self.qname@, qtype: self.qtype@, qclass: self.qclass@ }
    }
}

/// What is read of a DNS packet.
pub struct DnsPacket {
    pub id: u16,
    pub opcode: u16,
    pub questions: Vec<DnsQuestion>,
    /// How long each answer may be kept, in seconds.
    pub ttls: Vec<u32>,
    /// The IPv4 address of each answer that gives one.
    pub addresses: Vec<Option<u32>>,
}

/// What is read of a DNS packet, with its lists and texts as sequences.
pub struct DnsPacketView {
    pub id: u16,
    pub opcode: u16,
    pub questions: Seq<DnsQuestionView>,
    pub ttls: Seq<u32>,
    pub addresses: Seq<Option<u32>>,
}

impl View for DnsPacket {
    type V = DnsPacketView;

    open spec fn view(&self) -> DnsPacketView {
        DnsPacketView {
            id: self.id,
            opcode: self.opcode,
            questions: self.questions@.map_values(|q: DnsQuestion| q@),
            ttls: self.ttls@,
            addresses: self.addresses@,
        }
    }
}

/// The DNS packet that `bytes` spells, or why it spells none.
pub uninterp spec fn parsed_dns(bytes: Seq<u8>) -> Result<DnsPacketView, Seq<char>>;

/// A result with its packet and the text of its error as sequences.
pub open spec fn packet_or_text(r: Result<DnsPacket, String>) -> Result<DnsPacketView, Seq<char>> {
    match r {
        Ok(packet) => Ok(packet@),
        Err(text) => Err(text@),
    }
}

/// `dns_parser::Packet::parse`: what it reads, or the text of its error,
/// depends on the bytes alone. A packet has at least a header, which begins
/// with the number of the packet.
#[verifier::external_body]
pub(crate) fn parse_dns(bytes: &[u8]) -> (r: Result<DnsPacket, String>)
    ensures
        packet_or_text(r) == parsed_dns(bytes@),
        r matches Ok(packet) ==> bytes@.len() >= DNS_HEADER_SIZE && packet.id == be16(bytes@, 0),
{
    let p = dns_parser::Packet::parse(bytes).map_err(|e| e.to_string())?;
    let question = |q: &Question| DnsQuestion {
        qname: q.qname.to_string(),
        qtype: format!("{:?}", q.qtype),
        qclass: format!("{:?}", q.qclass),
    };
    let address = |a: &ResourceRecord| match a.data { RData::A(ip) => Some(ip.0.into()), _ => None };
    Ok(DnsPacket {
        id: p.header.id,
        opcode: p.header.opcode.into(),
        questions: p.questions.iter().map(question).collect(),
        ttls: p.answers.iter().map(|a| a.ttl).collect(),
        addresses: p.answers.iter().map(address).collect(),
    })
}

/// The first address among the answers of a packet.
pub open spec fn first_address(addresses: Seq<Option<u32>>) -> Option<Ipv4Addr>
    decreases addresses.len(),
{
    if addresses.len() == 0 {
        None
    } else {
        match addresses[0] {
            Some(bits) => Some(Ipv4Addr { bits }),
            None => first_address(addresses.drop_first()),
        }
    }
}

/// Finds the first address among the answers of a packet.
pub fn find_first_a_record(answers: &Vec<Option<u32>>) -> (r: Option<Ipv4Addr>)
    ensures
        r == first_address(answers@),
{
    let mut i: usize = 0;
    assert(answers@.skip(0) =~= answers@);
    while i < answers.len()
        invariant
            i <= answers.len(),
            first_address(answers@) == first_address(answers@.skip(i as int)),
        decreases answers.len() - i,
    {
        if let Some(bits) = answers[i] {
            return Some(Ipv4Addr { bits });
        }
        assert(answers@.skip(i as int).drop_first() =~= answers@.skip(i + 1));
        i += 1;
    }
    None
}

/// What a packet says in answer to the query for `host` with the given number.
pub open spec fn address_in(packet: DnsPacketView, query_id: u16, host: Seq<char>) -> Result<
    Ipv4Addr,
    Seq<char>,
> {
    if packet.id != query_id {
        Err("Transaction ID mismatch"@)
    } else {
        match first_address(packet.addresses) {
            Some(ip) => Ok(ip),
            None => Err("No A record resolved for "@ + host),
        }
    }
}

/// What a reply says in answer to the query for `host` with the given number.
pub open spec fn address_in_reply(reply: Seq<u8>, query_id: u16, host: Seq<char>) -> Result<
    Ipv4Addr,
    Seq<char>,
> {
    match parsed_dns(reply) {
        Ok(packet) => address_in(packet, query_id, host),
        Err(text) => Err("Failed to parse DNS response: "@ + text),
    }
}

/// A result with the text of its error as a sequence.
pub open spec fn outcome(r: Result<Ipv4Addr, String>) -> Result<Ipv4Addr, Seq<char>> {
    match r {
        Ok(ip) => Ok(ip),
        Err(text) => Err(text@),
    }
}

/// Reads the address that a packet gives in answer to a query.
pub fn address_from_packet(packet: &DnsPacket, query_id: u16, host: &str) -> (r: Result<
    Ipv4Addr,
    String,
>)
    ensures
        outcome(r) == address_in(packet@, query_id, host@),
{
    if packet.id != query_id {
        return Err("Transaction ID mismatch".to_owned());
    }
    match find_first_a_record(&packet.addresses) {
        Some(ip) => Ok(ip),
        None => {
            let mut text = "No A record resolved for ".to_owned();
            text.append(host);
            Err(text)
        },
    }
}

/// Reads the address that a reply gives in answer to a query.
pub fn parse_dns_a_record_response(buf: &[u8], query_id: u16, host: &str) -> (r: Result<
    Ipv4Addr,
    String,
>)
    ensures
        outcome(r) == address_in_reply(buf@, query_id, host@),
        r is Ok ==> buf@.len() >= DNS_HEADER_SIZE && be16(buf@, 0) == query_id,
{
    match parse_dns(buf) {
        Ok(packet) => address_from_packet(&packet, query_id, host),
        Err(e) => {
            let mut text = "Failed to parse DNS response: ".to_owned();
            text.append(e.as_str());
            Err(text)
        },
    }
}

/// The forwarder on this host: `127.0.0.1`, port 53.
pub open spec fn local_forwarder() -> Endpoint {
    Endpoint { ip: spec_ipv4(127, 0, 0, 1), port: DNS_PORT }
}

/// The forwarder on this host, to which queries of the router itself go.
pub fn local_dns_server() -> (r: Endpoint)
    ensures
        r == local_forwarder(),
{
    Endpoint { ip: Ipv4Addr::new(127, 0, 0, 1), port: DNS_PORT }
}

/// Reads the address that a reply from `from` gives in answer to a query; only
/// the forwarder on this host is believed.
pub fn accept_dns_reply(from: Endpoint, buf: &[u8], query_id: u16, host: &str) -> (r: Result<
    Ipv4Addr,
    String,
>)
    ensures
        outcome(r) == if from == local_forwarder() {
            address_in_reply(buf@, query_id, host@)
        } else {
            Err("Received packet from unexpected source"@)
        },
        r is Ok ==> buf@.len() >= DNS_HEADER_SIZE && be16(buf@, 0) == query_id,
{
    if from != local_dns_server() {
        return Err("Received packet from unexpected source".to_owned());
    }
    parse_dns_a_record_response(buf, query_id, host)
}

/// Whether each part of a name between its dots is short enough to be a label
/// of a query.
pub open spec fn labels_fit(host: Seq<char>) -> bool {
    forall|i: int, j: int|
        #![trigger host.subrange(i, j)]
        0 <= i <= j <= host.len() && !host.subrange(i, j).contains('.')
            ==> vstd::utf8::encode_utf8(host.subrange(i, j)).len() < 63
}

/// Whether a name is made of ASCII labels with single dots between them.
pub open spec fn plain_name(host: Seq<char>) -> bool {
    &&& host.len() > 0
    &&& host[0] != '.'
    &&& host.last() != '.'
    &&& forall|i: int| 0 <= i < host.len() ==> (#[trigger] host[i] as u32) < 128
    &&& forall|i: int|
        #![trigger host[i]]
        0 <= i < host.len() - 1 && host[i] == '.' ==> host[i + 1] != '.'
}

/// What is read of the query for the IPv4 address of `host` with the given
/// number.
pub open spec fn question_for(query_id: u16, host: Seq<char>) -> DnsPacketView {
    DnsPacketView {
        id: query_id,
        opcode: OPCODE_STANDARD_QUERY,
        questions: seq![DnsQuestionView { qname: host, qtype: "A"@, qclass: "IN"@ }],
        ttls: Seq::empty(),
        addresses: Seq::empty(),
    }
}

/// Whether `query` is read as the query for the IPv4 address of `host` with the
/// given number, where the name is a plain one.
pub open spec fn reads_as_question(query: Seq<u8>, query_id: u16, host: Seq<char>) -> bool {
    plain_name(host) ==> parsed_dns(query) == Ok::<DnsPacketView, Seq<char>>(
        question_for(query_id, host),
    )
}

/// Whether the query for a name is short enough to be sent.
pub open spec fn query_fits(host: Seq<char>) -> bool {
    vstd::utf8::encode_utf8(host).len() <= 494
}

/// The query for the IPv4 address of `host` with the given number.
pub uninterp spec fn built_query(query_id: u16, host: Seq<char>) -> Seq<u8>;

/// `dns_parser::Builder` with one question for an IPv4 address: the packet
/// depends on the number and the name alone, begins with the number, and is
/// eighteen bytes longer than the name. One of more than 512 bytes is not built.
/// `dns_parser::Packet::parse` reads the question back. The builder panics where
/// a label is too long.
#[verifier::external_body]
fn build_packet(query_id: u16, host: &str) -> (r: Option<Vec<u8>>)
    requires
        labels_fit(host@),
    ensures
        r is Some <==> query_fits(host@),
        r matches Some(query) ==> query@ == built_query(query_id, host@),
        r matches Some(query) ==> query@.len() == vstd::utf8::encode_utf8(host@).len() + 18,
        r matches Some(query) ==> be16(query@, 0) == query_id,
        r matches Some(query) ==> reads_as_question(query@, query_id, host@),
{
    let mut builder = dns_parser::Builder::new_query(query_id, true);
    builder.add_question(host, false, dns_parser::QueryType::A, dns_parser::QueryClass::IN);
    builder.build().ok()
}

/// Whether `query` asks for the IPv4 address of `host` under the given number.
pub open spec fn asks_for(query: Seq<u8>, query_id: u16, host: Seq<char>) -> bool {
    &&& query == built_query(query_id, host)
    &&& query.len() == vstd::utf8::encode_utf8(host).len() + 18
    &&& be16(query, 0) == query_id
    &&& reads_as_question(query, query_id, host)
}

/// Builds the query for the IPv4 address of `host`.
pub fn build_dns_a_query(query_id: u16, host: &str) -> (r: Result<Vec<u8>, String>)
    requires
        labels_fit(host@),
    ensures
        match r {
            Ok(query) => query_fits(host@) && asks_for(query@, query_id, host@),
            Err(text) => !query_fits(host@) && text@ == "Failed to build DNS query packet"@,
        },
{
    match build_packet(query_id, host) {
        Some(query) => Ok(query),
        None => Err("Failed to build DNS query packet".to_owned()),
    }
}

} // verus!
