//! DHCP messages as the client and the server read and write them.

use crate::addr::{Ipv4Addr, MacAddr};
use crate::option_lengths::{
    law_fitting_message_is_kept, law_tidied_message_fits, lengths_fit, tidied_message,
    tidy_message,
};
use crate::packet::{
    be16, be32, law_frame_carries_payload, raw_frame, strip_udp_headers, udp_payload_for, UdpRoute,
    MAX_UDP_PAYLOAD,
};
use dhcproto::v4::DhcpOption::{
    self, AddressLeaseTime, DomainNameServer, Hostname, MessageType, RequestedIpAddress, Router,
    ServerIdentifier, SubnetMask,
};
use dhcproto::v4::Message;
use dhcproto::{Decodable, Decoder, Encodable};
use vstd::prelude::*;

verus! {

/// The UDP port of a DHCP server.
pub const SERVER_PORT: u16 = 67;

/// The UDP port of a DHCP client.
pub const CLIENT_PORT: u16 = 68;

/// The operation code of a message from a client.
pub const BOOT_REQUEST: u8 = 1;

/// The operation code of a message from a server.
pub const BOOT_REPLY: u8 = 2;

pub const DHCP_DISCOVER: u8 = 1;

pub const DHCP_OFFER: u8 = 2;

pub const DHCP_REQUEST: u8 = 3;

pub const DHCP_DECLINE: u8 = 4;

pub const DHCP_ACK: u8 = 5;

pub const DHCP_NAK: u8 = 6;

pub const DHCP_RELEASE: u8 = 7;

pub const DHCP_INFORM: u8 = 8;

/// The filler between options.
pub const OPT_PAD: u8 = 0;

pub const OPT_SUBNET_MASK: u8 = 1;

pub const OPT_ROUTER: u8 = 3;

pub const OPT_DOMAIN_NAME_SERVER: u8 = 6;

pub const OPT_HOSTNAME: u8 = 12;

pub const OPT_REQUESTED_IP: u8 = 50;

pub const OPT_LEASE_TIME: u8 = 51;

pub const OPT_MESSAGE_TYPE: u8 = 53;

pub const OPT_SERVER_IDENTIFIER: u8 = 54;

pub const OPT_PARAMETER_REQUEST_LIST: u8 = 55;

pub const OPT_RAPID_COMMIT: u8 = 80;

pub const OPT_CLIENT_FQDN: u8 = 81;

/// What a relay agent adds to a message that it forwards.
pub const OPT_RELAY_AGENT: u8 = 82;

pub const OPT_CLIENT_NETWORK_INTERFACE: u8 = 94;

/// The first of four options that each hold a time.
pub const OPT_BASE_TIME: u8 = 152;

/// The last of four options that each hold a time.
pub const OPT_QUERY_END_TIME: u8 = 155;

/// The mark after the last option.
pub const OPT_END: u8 = 255;

/// The flag by which a client asks for its answers to be broadcast.
pub const FLAG_BROADCAST: u16 = 0x8000;

/// The length of a message up to its options.
pub const FIXED_LEN: usize = 240;

/// What an option holds.
#[derive(Clone, Debug, PartialEq, Eq)]
pub enum OptionValue {
    Kind(u8),
    Address(Ipv4Addr),
    Addresses(Vec<Ipv4Addr>),
    Seconds(u32),
    Text(String),
    Codes(Vec<u8>),
    Other,
}

/// What an option holds, with its lists and texts as sequences.
pub enum OptionView {
    Kind(u8),
    Address(Ipv4Addr),
    Addresses(Seq<Ipv4Addr>),
    Seconds(u32),
    Text(Seq<char>),
    Codes(Seq<u8>),
    Other,
}

impl View for OptionValue {
    type V = OptionView;

    open spec fn view(&self) -> OptionView {
        match *self {
            OptionValue::Kind(kind) => OptionView::Kind(kind),
            OptionValue::Address(ip) => OptionView::Address(ip),
            OptionValue::Addresses(ips) => OptionView::Addresses(ips@),
            OptionValue::Seconds(secs) => OptionView::Seconds(secs),
            OptionValue::Text(text) => OptionView::Text(text@),
            OptionValue::Codes(codes) => OptionView::Codes(codes@),
            OptionValue::Other => OptionView::Other,
        }
    }
}

/// The options of a message, each with its code.
pub open spec fn options_view(options: Seq<(u8, OptionValue)>) -> Seq<(u8, OptionView)> {
    options.map_values(|o: (u8, OptionValue)| (o.0, o.1@))
}

/// The options of the message that `payload` spells, in the order of their
/// codes.
pub uninterp spec fn decoded_options(payload: Seq<u8>) -> Seq<(u8, OptionView)>;

/// The fields of a message of fixed length.
pub struct DhcpHeader {
    pub opcode: u8,
    pub hlen: u8,
    pub xid: u32,
    pub flags: u16,
    pub ciaddr: u32,
    pub yiaddr: u32,
    pub siaddr: u32,
    pub giaddr: u32,
}

/// `dhcproto::v4::Message::decode` and its accessors: a message is read from
/// any buffer that holds its fixed part, and its fields are the bytes at their
/// places, most significant first. The decoder asserts the lengths of some
/// options in builds with debug assertions, and panics there; in others it reads
/// as much of the data as the option should have, or gives up on the options
/// where there is too little.
#[verifier::external_body]
fn decode_header(payload: &[u8]) -> (r: Option<DhcpHeader>)
    requires
        payload@.len() >= FIXED_LEN ==> lengths_fit(payload@.skip(FIXED_LEN as int), OPT_PAD, 0),
    ensures
        r is Some <==> payload@.len() >= FIXED_LEN,
        r matches Some(h) ==> h.opcode == payload@[0] && h.hlen == payload@[2],
        r matches Some(h) ==> h.xid == be32(payload@, 4) && h.flags == be16(payload@, 10),
        r matches Some(h) ==> h.ciaddr == be32(payload@, 12) && h.yiaddr == be32(payload@, 16),
        r matches Some(h) ==> h.siaddr == be32(payload@, 20) && h.giaddr == be32(payload@, 24),
{
    let m = Message::decode(&mut Decoder::new(payload)).ok()?;
    Some(DhcpHeader {
        opcode: m.opcode().into(),
        hlen: m.hlen(),
        xid: m.xid(),
        flags: m.flags().into(),
        ciaddr: m.ciaddr().into(),
        yiaddr: m.yiaddr().into(),
        siaddr: m.siaddr().into(),
        giaddr: m.giaddr().into(),
    })
}

/// `dhcproto::v4::Message::chaddr` of a decoded message: as many bytes of the
/// sixteen that hold the hardware address as the message says. It panics where
/// the message says more than there are, and where the decoder does.
#[verifier::external_body]
fn decode_chaddr(payload: &[u8]) -> (r: Option<Vec<u8>>)
    requires
        payload@.len() >= FIXED_LEN ==> payload@[2] <= 16,
        payload@.len() >= FIXED_LEN ==> lengths_fit(payload@.skip(FIXED_LEN as int), OPT_PAD, 0),
    ensures
        r is Some <==> payload@.len() >= FIXED_LEN,
        r matches Some(chaddr) ==> chaddr@ == payload@.subrange(28, 28 + payload@[2]),
{
    let m = Message::decode(&mut Decoder::new(payload)).ok()?;
    Some(m.chaddr().to_vec())
}

/// The options of `dhcproto::v4::Message::decode`: what they are depends on the
/// bytes of the message alone. Options that nothing here reads are kept by
/// their codes. It panics where the decoder does.
#[verifier::external_body]
fn decode_options(payload: &[u8]) -> (r: Option<Vec<(u8, OptionValue)>>)
    requires
        payload@.len() >= FIXED_LEN ==> lengths_fit(payload@.skip(FIXED_LEN as int), OPT_PAD, 0),
    ensures
        r is Some <==> payload@.len() >= FIXED_LEN,
        r matches Some(options) ==> options_view(options@) == decoded_options(payload@),
{
    let m = Message::decode(&mut Decoder::new(payload)).ok()?;
    Some(m.opts().iter().map(|(c, o)| ((*c).into(), match o {
        MessageType(t) => OptionValue::Kind((*t).into()),
        ServerIdentifier(a) | RequestedIpAddress(a) | SubnetMask(a) =>
            OptionValue::Address(Ipv4Addr { bits: (*a).into() }),
        AddressLeaseTime(s) => OptionValue::Seconds(*s),
        Hostname(h) => OptionValue::Text(h.clone()),
        Router(v) | DomainNameServer(v) =>
            OptionValue::Addresses(v.iter().map(|a| Ipv4Addr { bits: (*a).into() }).collect()),
        _ => OptionValue::Other,
    })).collect())
}

/// Whether `bytes` begins with these fields and this hardware address.
pub open spec fn has_header(bytes: Seq<u8>, header: DhcpHeader, chaddr: Seq<u8>) -> bool {
    &&& bytes.len() >= FIXED_LEN
    &&& bytes[0] == header.opcode
    &&& bytes[2] == chaddr.len()
    &&& be32(bytes, 4) == header.xid
    &&& be16(bytes, 10) == header.flags
    &&& be32(bytes, 12) == header.ciaddr
    &&& be32(bytes, 16) == header.yiaddr
    &&& be32(bytes, 20) == header.siaddr
    &&& be32(bytes, 24) == header.giaddr
    &&& bytes.subrange(28, (28 + chaddr.len()) as int) == chaddr
}

/// What is read of an option that holds `data`, where the option is one that the
/// client or the server writes and the data has the form that it is given there.
pub open spec fn value_read(code: u8, data: Seq<u8>) -> Option<OptionView> {
    if code == OPT_MESSAGE_TYPE && data.len() == 1 {
        Some(OptionView::Kind(data[0]))
    } else if (code == OPT_SUBNET_MASK || code == OPT_REQUESTED_IP || code
        == OPT_SERVER_IDENTIFIER) && data.len() == 4 {
        Some(OptionView::Address(Ipv4Addr { bits: be32(data, 0) }))
    } else if (code == OPT_ROUTER || code == OPT_DOMAIN_NAME_SERVER) && data.len() > 0 && data.len()
        % 4 == 0 {
        Some(
            OptionView::Addresses(
                Seq::new(data.len() / 4, |i: int| Ipv4Addr { bits: be32(data, 4 * i) }),
            ),
        )
    } else if code == OPT_LEASE_TIME && data.len() == 4 {
        Some(OptionView::Seconds(be32(data, 0)))
    } else if code == OPT_PARAMETER_REQUEST_LIST && data.len() > 0 {
        Some(OptionView::Other)
    } else {
        None
    }
}

/// What is read of the first of these options that has the given code.
pub open spec fn value_of(options: Seq<(u8, Seq<u8>)>, code: u8) -> Option<OptionView>
    decreases options.len(),
{
    if options.len() == 0 {
        None
    } else if options[0].0 == code {
        value_read(code, options[0].1)
    } else {
        value_of(options.drop_first(), code)
    }
}

/// Whether something is read of each of these options, and no two have the same
/// code.
pub open spec fn readable(options: Seq<(u8, Seq<u8>)>) -> bool {
    &&& forall|i: int|
        0 <= i < options.len() ==> value_read((#[trigger] options[i]).0, options[i].1) is Some
    &&& forall|i: int, j: int|
        0 <= i < j < options.len() ==> (#[trigger] options[i]).0 != (#[trigger] options[j]).0
}

/// Whether these options, and no others, are read from the message that `bytes`
/// spells.
pub open spec fn holds_options(bytes: Seq<u8>, options: Seq<(u8, Seq<u8>)>) -> bool {
    &&& lengths_fit(bytes.skip(FIXED_LEN as int), OPT_PAD, 0)
    &&& forall|code: u8| #[trigger]
        option_of(decoded_options(bytes), code) == value_of(options, code)
}

/// The bytes of the message with these fields, this hardware address and these
/// options, each given by its code and its data.
pub uninterp spec fn encoded_message(
    header: DhcpHeader,
    chaddr: Seq<u8>,
    options: Seq<(u8, Seq<u8>)>,
) -> Seq<u8>;

/// `dhcproto::v4::Message::to_vec` of a message on Ethernet without hops,
/// elapsed seconds, server name or file name. It succeeds: the encoder fails
/// only where the length of its buffer would overflow. The bytes depend on the
/// given fields, hardware address and options alone; the fields and the hardware
/// address stand in them at their places, and an option takes up at most its data
/// and two bytes more, with one byte for their end. `Message::decode` reads the
/// options back. The encoder has room for sixteen bytes of hardware address. An
/// option with the code of a relay agent is left out: the encoder moves that
/// option to the end, and would write one given by its number, as the options
/// here are, at both places.
#[verifier::external_body]
fn encode_message(header: &DhcpHeader, chaddr: &[u8], options: &Vec<(u8, Vec<u8>)>) -> (r: Vec<u8>)
    requires
        chaddr@.len() <= 16,
        forall|i: int| 0 <= i < options@.len() ==> (#[trigger] options@[i]).1@.len() <= 255,
        forall|i: int| 0 <= i < options@.len() ==> (#[trigger] options@[i]).0 != OPT_RELAY_AGENT,
    ensures
        r@ == encoded_message(*header, chaddr@, data_view(options@)),
        has_header(r@, *header, chaddr@),
        r@.len() <= FIXED_LEN + 257 * options@.len() + 1,
        readable(data_view(options@)) ==> holds_options(r@, data_view(options@)),
{
    let mut m = Message::default();
    m.set_opcode(header.opcode.into()).set_xid(header.xid).set_flags(header.flags.into());
    m.set_ciaddr(header.ciaddr).set_yiaddr(header.yiaddr);
    m.set_siaddr(header.siaddr).set_giaddr(header.giaddr).set_chaddr(chaddr);
    for (code, data) in options {
        let option = dhcproto::v4::UnknownOption::new((*code).into(), data.clone());
        m.opts_mut().insert(DhcpOption::Unknown(option));
    }
    m.to_vec().unwrap()
}

/// The data of options, each with its code.
pub open spec fn data_view(options: Seq<(u8, Vec<u8>)>) -> Seq<(u8, Seq<u8>)> {
    options.map_values(|o: (u8, Vec<u8>)| (o.0, o.1@))
}

/// A DHCP message.
#[derive(Clone, Debug, PartialEq, Eq)]
pub struct DhcpMessage {
    pub opcode: u8,
    pub hlen: u8,
    pub xid: u32,
    pub flags: u16,
    pub ciaddr: Ipv4Addr,
    pub yiaddr: Ipv4Addr,
    pub siaddr: Ipv4Addr,
    pub giaddr: Ipv4Addr,
    pub chaddr: Vec<u8>,
    pub options: Vec<(u8, OptionValue)>,
}

/// A DHCP message, with its hardware address and options as sequences.
pub struct MessageView {
    pub opcode: u8,
    pub hlen: u8,
    pub xid: u32,
    pub flags: u16,
    pub ciaddr: Ipv4Addr,
    pub yiaddr: Ipv4Addr,
    pub siaddr: Ipv4Addr,
    pub giaddr: Ipv4Addr,
    pub chaddr: Seq<u8>,
    pub options: Seq<(u8, OptionView)>,
}

impl View for DhcpMessage {
    type V = MessageView;

    open spec fn view(&self) -> MessageView {
        MessageView {
            opcode: self.opcode,
            hlen: self.hlen,
            xid: self.xid,
            flags: self.flags,
            ciaddr: self.ciaddr,
            yiaddr: self.yiaddr,
            siaddr: self.siaddr,
            giaddr: self.giaddr,
            chaddr: self.chaddr@,
            options: options_view(self.options@),
        }
    }
}

/// What the first option with the given code holds.
pub open spec fn option_of(options: Seq<(u8, OptionView)>, code: u8) -> Option<OptionView>
    decreases options.len(),
{
    if options.len() == 0 {
        None
    } else if options[0].0 == code {
        Some(options[0].1)
    } else {
        option_of(options.drop_first(), code)
    }
}

/// The message that `payload` spells. A hardware address that is said to be
/// longer than there is room for is not read. An option that should have data of
/// a certain length is read up to that length; where it has too little, neither
/// it nor any option after it is read.
pub open spec fn decoded_message(payload: Seq<u8>) -> Option<MessageView> {
    if payload.len() < FIXED_LEN {
        None
    } else {
        Some(
            MessageView {
                opcode: payload[0],
                hlen: payload[2],
                xid: be32(payload, 4),
                flags: be16(payload, 10),
                ciaddr: Ipv4Addr { bits: be32(payload, 12) },
                yiaddr: Ipv4Addr { bits: be32(payload, 16) },
                siaddr: Ipv4Addr { bits: be32(payload, 20) },
                giaddr: Ipv4Addr { bits: be32(payload, 24) },
                chaddr: if payload[2] <= 16 {
                    payload.subrange(28, 28 + payload[2])
                } else {
                    Seq::empty()
                },
                options: decoded_options(tidied_message(payload)),
            },
        )
    }
}

impl MessageView {
    pub open spec fn message_type(self) -> Option<u8> {
        match option_of(self.options, OPT_MESSAGE_TYPE) {
            Some(OptionView::Kind(kind)) => Some(kind),
            _ => None,
        }
    }

    pub open spec fn server_identifier(self) -> Option<Ipv4Addr> {
        match option_of(self.options, OPT_SERVER_IDENTIFIER) {
            Some(OptionView::Address(ip)) => Some(ip),
            _ => None,
        }
    }

    pub open spec fn requested_ip(self) -> Option<Ipv4Addr> {
        match option_of(self.options, OPT_REQUESTED_IP) {
            Some(OptionView::Address(ip)) => Some(ip),
            _ => None,
        }
    }

    pub open spec fn hostname(self) -> Option<Seq<char>> {
        match option_of(self.options, OPT_HOSTNAME) {
            Some(OptionView::Text(name)) => Some(name),
            _ => None,
        }
    }

    /// Whether the client asked for its answers to be broadcast.
    pub open spec fn broadcast(self) -> bool {
        self.flags >= FLAG_BROADCAST
    }
}

impl DhcpMessage {
    /// A request without addresses or options.
    pub fn new() -> (r: DhcpMessage)
        ensures
            r@ == (MessageView {
                opcode: BOOT_REQUEST,
                hlen: 0,
                xid: 0,
                flags: 0,
                ciaddr: (Ipv4Addr { bits: 0 }),
                yiaddr: (Ipv4Addr { bits: 0 }),
                siaddr: (Ipv4Addr { bits: 0 }),
                giaddr: (Ipv4Addr { bits: 0 }),
                chaddr: Seq::empty(),
                options: Seq::empty(),
            }),
            r.options@.len() == 0,
    {
        let r = DhcpMessage {
            opcode: BOOT_REQUEST,
            hlen: 0,
            xid: 0,
            flags: 0,
            ciaddr: Ipv4Addr::unspecified(),
            yiaddr: Ipv4Addr::unspecified(),
            siaddr: Ipv4Addr::unspecified(),
            giaddr: Ipv4Addr::unspecified(),
            chaddr: Vec::new(),
            options: Vec::new(),
        };
        assert(r@.options =~= Seq::empty());
        r
    }

    /// What the option with the given code holds.
    pub fn option(&self, code: u8) -> (r: Option<&OptionValue>)
        ensures
            match r {
                Some(value) => option_of(self@.options, code) == Some(value@),
                None => option_of(self@.options, code) is None,
            },
    {
        let mut i: usize = 0;
        assert(self@.options.skip(0) =~= self@.options);
        while i < self.options.len()
            invariant
                i <= self.options.len(),
                option_of(self@.options, code) == option_of(self@.options.skip(i as int), code),
            decreases self.options.len() - i,
        {
            let ghost rest = self@.options.skip(i as int);
            assert(rest[0] == (self.options@[i as int].0, self.options@[i as int].1@));
            if self.options[i].0 == code {
                return Some(&self.options[i].1);
            }
            assert(rest.drop_first() =~= self@.options.skip(i + 1));
            i += 1;
        }
        None
    }

    /// Sets the option with the given code.
    pub fn insert(&mut self, code: u8, value: OptionValue)
        ensures
            final(self)@.options == with_option(old(self)@.options, code, value@),
            final(self)@ == (MessageView { options: final(self)@.options, ..old(self)@ }),
    {
        let ghost before = self@;
        let mut i: usize = 0;
        while i < self.options.len()
            invariant
                i <= self.options.len(),
                self@ == before,
                before == old(self)@,
                forall|j: int| 0 <= j < i ==> (#[trigger] before.options[j]).0 != code,
            decreases self.options.len() - i,
        {
            if self.options[i].0 == code {
                let ghost shown = value@;
                self.options.set(i, (code, value));
                proof {
                    assert(self@.options =~= before.options.update(i as int, (code, shown)));
                    lemma_with_option(before.options, code, shown, i as int);
                }
                return ;
            }
            assert(before.options[i as int].0 == self.options@[i as int].0);
            i += 1;
        }
        let ghost shown = value@;
        self.options.push((code, value));
        proof {
            assert(self@.options =~= before.options.push((code, shown)));
            lemma_with_option(before.options, code, shown, i as int);
        }
    }

    pub fn message_type(&self) -> (r: Option<u8>)
        ensures
            r == self@.message_type(),
    {
        match self.option(OPT_MESSAGE_TYPE) {
            Some(OptionValue::Kind(kind)) => Some(*kind),
            _ => None,
        }
    }

    pub fn server_identifier(&self) -> (r: Option<Ipv4Addr>)
        ensures
            r == self@.server_identifier(),
    {
        match self.option(OPT_SERVER_IDENTIFIER) {
            Some(OptionValue::Address(ip)) => Some(*ip),
            _ => None,
        }
    }

    pub fn requested_ip(&self) -> (r: Option<Ipv4Addr>)
        ensures
            r == self@.requested_ip(),
    {
        match self.option(OPT_REQUESTED_IP) {
            Some(OptionValue::Address(ip)) => Some(*ip),
            _ => None,
        }
    }

    /// Whether the client asked for its answers to be broadcast.
    pub fn broadcast(&self) -> (r: bool)
        ensures
            r == self@.broadcast(),
    {
        self.flags >= FLAG_BROADCAST
    }

    /// Reads a message.
    pub fn decode(payload: &[u8]) -> (r: Option<DhcpMessage>)
        ensures
            match r {
                Some(message) => decoded_message(payload@) == Some(message@),
                None => decoded_message(payload@) is None,
            },
    {
        if payload.len() < FIXED_LEN {
            return None;
        }
        let tidy = tidy_message(payload);
        proof {
            law_tidied_message_fits(payload@);
            assert forall|i: int| 0 <= i < FIXED_LEN implies tidy@[i] == payload@[i] by {
                assert(tidy@.take(FIXED_LEN as int)[i] == payload@.take(FIXED_LEN as int)[i]);
            }
        }
        let header = match decode_header(tidy.as_slice()) {
            Some(header) => header,
            None => {
                return None;
            },
        };
        let options = match decode_options(tidy.as_slice()) {
            Some(options) => options,
            None => {
                return None;
            },
        };
        let chaddr: Vec<u8> = if header.hlen <= 16 {
            match decode_chaddr(tidy.as_slice()) {
                Some(chaddr) => {
                    assert(chaddr@ =~= payload@.subrange(28, 28 + payload@[2]));
                    chaddr
                },
                None => Vec::new(),
            }
        } else {
            Vec::new()
        };
        Some(
            DhcpMessage {
                opcode: header.opcode,
                hlen: header.hlen,
                xid: header.xid,
                flags: header.flags,
                ciaddr: Ipv4Addr { bits: header.ciaddr },
                yiaddr: Ipv4Addr { bits: header.yiaddr },
                siaddr: Ipv4Addr { bits: header.siaddr },
                giaddr: Ipv4Addr { bits: header.giaddr },
                chaddr,
                options,
            },
        )
    }
}

/// The options with the first one of the given code replaced, or the new one
/// added where there is none.
pub open spec fn with_option(
    options: Seq<(u8, OptionView)>,
    code: u8,
    value: OptionView,
) -> Seq<(u8, OptionView)>
    decreases options.len(),
{
    if options.len() == 0 {
        seq![(code, value)]
    } else if options[0].0 == code {
        options.update(0, (code, value))
    } else {
        seq![options[0]] + with_option(options.drop_first(), code, value)
    }
}

proof fn lemma_with_option(options: Seq<(u8, OptionView)>, code: u8, value: OptionView, at: int)
    requires
        0 <= at <= options.len(),
        forall|j: int| 0 <= j < at ==> (#[trigger] options[j]).0 != code,
        at < options.len() ==> options[at].0 == code,
    ensures
        with_option(options, code, value) == if at < options.len() {
            options.update(at, (code, value))
        } else {
            options.push((code, value))
        },
    decreases options.len(),
{
    if options.len() == 0 {
        assert(options.push((code, value)) =~= seq![(code, value)]);
    } else if at > 0 {
        let rest = options.drop_first();
        assert forall|j: int| 0 <= j < at - 1 implies (#[trigger] rest[j]).0 != code by {
            assert(rest[j] == options[j + 1]);
        }
        lemma_with_option(rest, code, value, at - 1);
        if at < options.len() {
            assert(options.update(at, (code, value)) =~= seq![options[0]] + rest.update(
                at - 1,
                (code, value),
            ));
        } else {
            assert(options.push((code, value)) =~= seq![options[0]] + rest.push((code, value)));
        }
    }
}

/// Setting an option makes it read back, and leaves the others as they were.
pub proof fn law_option_reads_back(
    options: Seq<(u8, OptionView)>,
    code: u8,
    value: OptionView,
    other: u8,
)
    ensures
        option_of(with_option(options, code, value), code) == Some(value),
        other != code ==> option_of(with_option(options, code, value), other) == option_of(
            options,
            other,
        ),
    decreases options.len(),
{
    let after = with_option(options, code, value);
    reveal_with_fuel(option_of, 2);
    if options.len() == 0 {
        assert(after.drop_first() =~= Seq::empty());
    } else if options[0].0 == code {
        assert(after.drop_first() =~= options.drop_first());
    } else {
        law_option_reads_back(options.drop_first(), code, value, other);
        assert(after.drop_first() =~= with_option(options.drop_first(), code, value));
    }
}

/// The four bytes of a number, most significant first.
pub open spec fn be32_bytes(n: u32) -> Seq<u8> {
    seq![
        (n / 0x100_0000) as u8,
        (n / 0x1_0000 % 0x100) as u8,
        (n / 0x100 % 0x100) as u8,
        (n % 0x100) as u8,
    ]
}

/// Addresses one after another, each as its four bytes.
pub open spec fn address_bytes(ips: Seq<Ipv4Addr>) -> Seq<u8>
    decreases ips.len(),
{
    if ips.len() == 0 {
        Seq::empty()
    } else {
        address_bytes(ips.drop_last()) + be32_bytes(ips.last().bits)
    }
}

/// The data by which an option holds a value.
pub open spec fn option_bytes(value: OptionView) -> Seq<u8> {
    match value {
        OptionView::Kind(kind) => seq![kind],
        OptionView::Address(ip) => be32_bytes(ip.bits),
        OptionView::Addresses(ips) => address_bytes(ips),
        OptionView::Seconds(secs) => be32_bytes(secs),
        OptionView::Text(text) => vstd::utf8::encode_utf8(text),
        OptionView::Codes(codes) => codes,
        OptionView::Other => Seq::empty(),
    }
}

fn push_be32(data: &mut Vec<u8>, n: u32)
    ensures
        final(data)@ == old(data)@ + be32_bytes(n),
{
    data.push((n / 0x100_0000) as u8);
    data.push((n / 0x1_0000 % 0x100) as u8);
    data.push((n / 0x100 % 0x100) as u8);
    data.push((n % 0x100) as u8);
    assert(data@ =~= old(data)@ + be32_bytes(n));
}

/// The data by which an option holds a value.
pub fn option_data(value: &OptionValue) -> (r: Vec<u8>)
    ensures
        r@ == option_bytes(value@),
{
    let mut data: Vec<u8> = Vec::new();
    match value {
        OptionValue::Kind(kind) => {
            data.push(*kind);
            assert(data@ =~= seq![*kind]);
        },
        OptionValue::Address(ip) => {
            push_be32(&mut data, ip.bits);
            assert(data@ =~= be32_bytes(ip.bits));
        },
        OptionValue::Addresses(ips) => {
            let mut i: usize = 0;
            while i < ips.len()
                invariant
                    i <= ips.len(),
                    data@ == address_bytes(ips@.take(i as int)),
                decreases ips.len() - i,
            {
                push_be32(&mut data, ips[i].bits);
                assert(ips@.take(i + 1).drop_last() =~= ips@.take(i as int));
                i += 1;
            }
            assert(ips@.take(i as int) =~= ips@);
        },
        OptionValue::Seconds(secs) => {
            push_be32(&mut data, *secs);
            assert(data@ =~= be32_bytes(*secs));
        },
        OptionValue::Text(text) => {
            data.extend_from_slice(text.as_str().as_bytes());
        },
        OptionValue::Codes(codes) => {
            data.extend_from_slice(codes.as_slice());
        },
        OptionValue::Other => {},
    }
    data
}

/// The options as they are encoded: each code with its data.
pub open spec fn encoded_options(options: Seq<(u8, OptionView)>) -> Seq<(u8, Seq<u8>)> {
    options.map_values(|o: (u8, OptionView)| (o.0, option_bytes(o.1)))
}

impl MessageView {
    /// Whether the hardware address and every option are short enough to be
    /// encoded, and no option is that of a relay agent.
    pub open spec fn encodable(self) -> bool {
        &&& self.chaddr.len() <= 16
        &&& forall|i: int|
            0 <= i < self.options.len() ==> option_bytes((#[trigger] self.options[i]).1).len()
                <= 255
        &&& forall|i: int|
            0 <= i < self.options.len() ==> (#[trigger] self.options[i]).0 != OPT_RELAY_AGENT
    }

    pub open spec fn header(self) -> DhcpHeader {
        DhcpHeader {
            opcode: self.opcode,
            hlen: self.hlen,
            xid: self.xid,
            flags: self.flags,
            ciaddr: self.ciaddr.bits,
            yiaddr: self.yiaddr.bits,
            siaddr: self.siaddr.bits,
            giaddr: self.giaddr.bits,
        }
    }

    /// The bytes of the message.
    pub open spec fn encoded(self) -> Seq<u8> {
        encoded_message(self.header(), self.chaddr, encoded_options(self.options))
    }

    /// Whether `bytes` are those of the message: they begin with its fields and
    /// its hardware address, have at most so much room for each option, and
    /// hold its options, where those can be read.
    pub open spec fn spelt_by(self, bytes: Seq<u8>) -> bool {
        let options = encoded_options(self.options);
        &&& bytes == self.encoded()
        &&& has_header(bytes, self.header(), self.chaddr)
        &&& bytes.len() <= FIXED_LEN + 257 * self.options.len() + 1
        &&& readable(options) ==> holds_options(bytes, options)
    }
}

impl DhcpMessage {
    /// Writes the message.
    pub fn encode(&self) -> (r: Vec<u8>)
        requires
            self@.encodable(),
        ensures
            self@.spelt_by(r@),
    {
        let header = DhcpHeader {
            opcode: self.opcode,
            hlen: self.hlen,
            xid: self.xid,
            flags: self.flags,
            ciaddr: self.ciaddr.bits,
            yiaddr: self.yiaddr.bits,
            siaddr: self.siaddr.bits,
            giaddr: self.giaddr.bits,
        };
        let mut options: Vec<(u8, Vec<u8>)> = Vec::new();
        let mut i: usize = 0;
        while i < self.options.len()
            invariant
                i <= self.options.len(),
                options.len() == i,
                forall|j: int|
                    0 <= j < i ==> (#[trigger] options@[j]).0 == self.options@[j].0
                        && options@[j].1@ == option_bytes(self.options@[j].1@),
            decreases self.options.len() - i,
        {
            let data = option_data(&self.options[i].1);
            options.push((self.options[i].0, data));
            i += 1;
        }
        proof {
            assert(data_view(options@) =~= encoded_options(self@.options));
            assert forall|j: int| 0 <= j < options@.len() implies (#[trigger] options@[j]).1@.len()
                <= 255 && options@[j].0 != OPT_RELAY_AGENT by {
                assert(self@.options[j].0 == self.options@[j].0);
                assert(self@.options[j].1 == self.options@[j].1@);
            }
        }
        encode_message(&header, self.chaddr.as_slice(), &options)
    }
}

/// Whether a value has the form that the option with the given code is written
/// with.
pub open spec fn fits_option(code: u8, value: OptionView) -> bool {
    match value {
        OptionView::Kind(_) => code == OPT_MESSAGE_TYPE,
        OptionView::Address(_) => code == OPT_SUBNET_MASK || code == OPT_REQUESTED_IP || code
            == OPT_SERVER_IDENTIFIER,
        OptionView::Addresses(ips) => (code == OPT_ROUTER || code == OPT_DOMAIN_NAME_SERVER)
            && ips.len() > 0,
        OptionView::Seconds(_) => code == OPT_LEASE_TIME,
        OptionView::Codes(codes) => code == OPT_PARAMETER_REQUEST_LIST && codes.len() > 0,
        _ => false,
    }
}

/// What is read of a value that was written: a list of codes is not looked into.
pub open spec fn as_read(value: Option<OptionView>) -> Option<OptionView> {
    match value {
        Some(OptionView::Codes(_)) => Some(OptionView::Other),
        _ => value,
    }
}

impl MessageView {
    /// Whether every option has the form that it is written with, and no two
    /// have the same code.
    pub open spec fn plain(self) -> bool {
        &&& forall|i: int|
            0 <= i < self.options.len() ==> fits_option(
                (#[trigger] self.options[i]).0,
                self.options[i].1,
            )
        &&& forall|i: int, j: int|
            0 <= i < j < self.options.len() ==> (#[trigger] self.options[i]).0 != (
            #[trigger] self.options[j]).0
    }
}

proof fn lemma_be32_reads_back(n: u32)
    ensures
        be32_bytes(n).len() == 4,
        be32(be32_bytes(n), 0) == n,
{
}

proof fn lemma_addresses_read_back(ips: Seq<Ipv4Addr>)
    ensures
        address_bytes(ips).len() == 4 * ips.len(),
        forall|i: int|
            0 <= i < ips.len() ==> be32(address_bytes(ips), 4 * i) == (#[trigger] ips[i]).bits,
    decreases ips.len(),
{
    if ips.len() > 0 {
        let front = ips.drop_last();
        lemma_addresses_read_back(front);
        lemma_be32_reads_back(ips.last().bits);
        let bytes = address_bytes(ips);
        assert forall|i: int| 0 <= i < ips.len() implies be32(bytes, 4 * i) == (
        #[trigger] ips[i]).bits by {
            if i < front.len() {
                assert(front[i] == ips[i]);
                assert(bytes[4 * i + 0] == address_bytes(front)[4 * i + 0]);
                assert(bytes[4 * i + 1] == address_bytes(front)[4 * i + 1]);
                assert(bytes[4 * i + 2] == address_bytes(front)[4 * i + 2]);
                assert(bytes[4 * i + 3] == address_bytes(front)[4 * i + 3]);
            } else {
                let last = be32_bytes(ips.last().bits);
                assert(bytes[4 * i + 0] == last[0]);
                assert(bytes[4 * i + 1] == last[1]);
                assert(bytes[4 * i + 2] == last[2]);
                assert(bytes[4 * i + 3] == last[3]);
            }
        }
    }
}

proof fn lemma_value_reads_back(code: u8, value: OptionView)
    requires
        fits_option(code, value),
    ensures
        value_read(code, option_bytes(value)) == as_read(Some(value)),
{
    match value {
        OptionView::Address(ip) => lemma_be32_reads_back(ip.bits),
        OptionView::Seconds(secs) => lemma_be32_reads_back(secs),
        OptionView::Addresses(ips) => {
            lemma_addresses_read_back(ips);
            let data = address_bytes(ips);
            assert(Seq::new(data.len() / 4, |i: int| Ipv4Addr { bits: be32(data, 4 * i) }) =~= ips);
        },
        _ => {},
    }
}

proof fn lemma_options_read_back(options: Seq<(u8, OptionView)>, code: u8)
    requires
        forall|i: int|
            0 <= i < options.len() ==> fits_option((#[trigger] options[i]).0, options[i].1),
    ensures
        value_of(encoded_options(options), code) == as_read(option_of(options, code)),
    decreases options.len(),
{
    let data = encoded_options(options);
    if options.len() > 0 {
        let rest = options.drop_first();
        assert(data.drop_first() =~= encoded_options(rest));
        assert forall|i: int| 0 <= i < rest.len() implies fits_option(
            (#[trigger] rest[i]).0,
            rest[i].1,
        ) by {
            assert(rest[i] == options[i + 1]);
        }
        lemma_options_read_back(rest, code);
        lemma_value_reads_back(options[0].0, options[0].1);
    }
}

/// A message is read back as it was written: its fields, its hardware address and
/// each of its options.
pub proof fn law_message_reads_back(m: MessageView, bytes: Seq<u8>)
    requires
        m.spelt_by(bytes),
        m.plain(),
        m.chaddr.len() <= 16,
    ensures
        decoded_message(bytes) matches Some(read) && read == (MessageView {
            hlen: m.chaddr.len() as u8,
            options: read.options,
            ..m
        }) && forall|code: u8| #[trigger]
            option_of(read.options, code) == as_read(option_of(m.options, code)),
{
    let data = encoded_options(m.options);
    assert forall|i: int| 0 <= i < data.len() implies value_read(
        (#[trigger] data[i]).0,
        data[i].1,
    ) is Some by {
        assert(m.options[i].0 == data[i].0);
        lemma_value_reads_back(m.options[i].0, m.options[i].1);
    }
    assert forall|i: int, j: int| 0 <= i < j < data.len() implies (#[trigger] data[i]).0 != (
    #[trigger] data[j]).0 by {
        assert(m.options[i].0 != m.options[j].0);
    }
    assert(readable(data));
    law_fitting_message_is_kept(bytes);
    assert forall|code: u8| #[trigger] option_of(decoded_options(bytes), code) == as_read(
        option_of(m.options, code),
    ) by {
        lemma_options_read_back(m.options, code);
    }
}

/// Reads the DHCP message that a frame carries to UDP port `expected_port`.
pub fn parse_dhcp_payload(buf: &[u8], expected_port: u16) -> (r: Option<DhcpMessage>)
    ensures
        match r {
            Some(message) => framed_message(buf@, expected_port) == Some(message@),
            None => framed_message(buf@, expected_port) is None,
        },
{
    match strip_udp_headers(buf, expected_port) {
        Some(payload) => DhcpMessage::decode(payload.as_slice()),
        None => None,
    }
}

/// The DHCP message that a frame carries to UDP port `port`.
pub open spec fn framed_message(frame: Seq<u8>, port: u16) -> Option<MessageView> {
    match udp_payload_for(frame, port) {
        Some(payload) => decoded_message(payload),
        None => None,
    }
}

/// The message read from a frame is the one that the payload put into the frame
/// spells.
pub proof fn law_frame_carries_message(route: UdpRoute, payload: Seq<u8>)
    requires
        payload.len() <= MAX_UDP_PAYLOAD,
    ensures
        framed_message(raw_frame(route, payload), route.dst_port) == decoded_message(payload),
{
    law_frame_carries_payload(route, payload, route.dst_port);
}

} // verus!
