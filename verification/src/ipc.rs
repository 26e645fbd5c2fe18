//! The messages between the parent process and its workers, and their framing.

use crate::addr::{Ipv4Addr, MacAddr};
use crate::text::{append_decimal, decimal};
use vstd::prelude::*;

verus! {

/// The longest message, in bytes.
pub const MAX_IPC_MSG_LEN: usize = 65536;

/// The length of the number before each message.
pub const LENGTH_PREFIX_LEN: usize = 4;

/// From the parent to the DNS forwarder.
#[derive(Clone, Debug, PartialEq, Eq)]
pub enum DnsParentToWorkerMsg {
    SetUpstreamResolvers { servers: Vec<Ipv4Addr> },
    RegisterLocalHost { name: String, ip: Ipv4Addr },
    DeregisterLocalHost { name: String },
}

/// From the DNS forwarder to the parent.
#[derive(Clone, Copy, Debug, PartialEq, Eq)]
pub enum DnsWorkerToParentMsg {
    Heartbeat,
}

/// From the parent to the DHCP server.
#[derive(Clone, Copy, Debug, PartialEq, Eq)]
pub enum DhcpServerParentToWorkerMsg {
    AddNeighbor { ip_address: Ipv4Addr, mac_address: MacAddr },
}

/// From the DHCP server to the parent.
#[derive(Clone, Debug, PartialEq, Eq)]
pub enum DhcpServerWorkerToParentMsg {
    Heartbeat,
    RegisterLocalHost { name: String, ip: Ipv4Addr },
    DeregisterLocalHost { name: String },
}

/// A host on the LAN that came by a name, or lost it.
#[derive(Clone, Debug, PartialEq, Eq)]
pub enum LocalHostEvent {
    Register { name: String, ip: Ipv4Addr },
    Deregister { name: String },
}

/// From the DHCP client to the parent.
#[derive(Clone, Debug, PartialEq, Eq)]
pub enum DhcpClientToParentMsg {
    Heartbeat,
    ApplyWanLease {
        ip_address: Ipv4Addr,
        prefix_len: u8,
        gateway: Ipv4Addr,
        dns_servers: Vec<Ipv4Addr>,
    },
    ClearWanLease,
}

/// From the SNTP client to the parent.
#[derive(Clone, Copy, Debug, PartialEq, Eq, Structural)]
pub enum SntpClientToParentMsg {
    SetSystemTime { seconds: i64, nanoseconds: i64 },
    ResolveTimeServer,
}

/// From the parent to the SNTP client.
#[derive(Debug, PartialEq, Eq)]
pub enum SntpParentToClientMsg {
    TimeServerResolved { result: Result<Ipv4Addr, String> },
}

/// A message that is longer than the limit.
#[derive(Clone, Copy, Debug, PartialEq, Eq, Structural)]
pub struct MessageTooLong {
    pub len: usize,
}

impl MessageTooLong {
    /// How the error is put in words where the message was to be sent.
    pub open spec fn worded_for_sender(self) -> Seq<char> {
        "Serialized IPC message length "@ + decimal(self.len as nat)
            + " exceeds maximum limit of 65536"@
    }

    /// How the error is put in words where the message was announced.
    pub open spec fn worded_for_receiver(self) -> Seq<char> {
        "IPC message length "@ + decimal(self.len as nat) + " exceeds maximum limit of 65536"@
    }

    /// The error in words, where the message was to be sent.
    pub fn sender_message(&self) -> (r: String)
        ensures
            r@ == self.worded_for_sender(),
    {
        let mut text = "Serialized IPC message length ".to_owned();
        append_decimal(&mut text, self.len as u64);
        text.append(" exceeds maximum limit of 65536");
        text
    }

    /// The error in words, where the message was announced.
    pub fn receiver_message(&self) -> (r: String)
        ensures
            r@ == self.worded_for_receiver(),
    {
        let mut text = "IPC message length ".to_owned();
        append_decimal(&mut text, self.len as u64);
        text.append(" exceeds maximum limit of 65536");
        text
    }
}

/// The number that four bytes spell, most significant first.
pub open spec fn length_of(prefix: Seq<u8>) -> int {
    prefix[0] * 0x100_0000 + prefix[1] * 0x1_0000 + prefix[2] * 0x100 + prefix[3]
}

/// The four bytes of a number, most significant first.
pub open spec fn length_prefix(len: int) -> Seq<u8> {
    seq![
        (len / 0x100_0000 % 0x100) as u8,
        (len / 0x1_0000 % 0x100) as u8,
        (len / 0x100 % 0x100) as u8,
        (len % 0x100) as u8,
    ]
}

/// A message with its length before it.
pub open spec fn framed(message: Seq<u8>) -> Seq<u8> {
    length_prefix(message.len() as int) + message
}

/// Puts the length of a message before it.
pub fn frame_msg(serialized: &Vec<u8>) -> (r: Result<Vec<u8>, MessageTooLong>)
    ensures
        match r {
            Ok(bytes) => serialized@.len() <= MAX_IPC_MSG_LEN && bytes@ == framed(serialized@),
            Err(e) => serialized@.len() > MAX_IPC_MSG_LEN && e.len == serialized@.len(),
        },
{
    let len: usize = serialized.len();
    if len > MAX_IPC_MSG_LEN {
        return Err(MessageTooLong { len });
    }
    let mut bytes: Vec<u8> = Vec::new();
    bytes.push((len / 0x100_0000 % 0x100) as u8);
    bytes.push((len / 0x1_0000 % 0x100) as u8);
    bytes.push((len / 0x100 % 0x100) as u8);
    bytes.push((len % 0x100) as u8);
    assert(bytes@ =~= length_prefix(len as int));
    bytes.extend_from_slice(serialized.as_slice());
    assert(bytes@ =~= framed(serialized@));
    Ok(bytes)
}

/// Reads the length before a message.
pub fn read_frame_len(prefix: &[u8; 4]) -> (r: Result<usize, MessageTooLong>)
    ensures
        match r {
            Ok(len) => len == length_of(prefix@) && len <= MAX_IPC_MSG_LEN,
            Err(e) => e.len == length_of(prefix@) && e.len > MAX_IPC_MSG_LEN,
        },
{
    let len: u32 = prefix[0] as u32 * 0x100_0000 + prefix[1] as u32 * 0x1_0000 + prefix[2] as u32
        * 0x100 + prefix[3] as u32;
    if len as usize > MAX_IPC_MSG_LEN {
        return Err(MessageTooLong { len: len as usize });
    }
    Ok(len as usize)
}

/// What was framed is read back: the first four bytes give the length of the
/// message, and as many bytes as that follow, which are the message.
pub proof fn law_frame_round_trip(message: Seq<u8>)
    requires
        message.len() <= MAX_IPC_MSG_LEN,
    ensures
        length_of(framed(message).take(LENGTH_PREFIX_LEN as int)) == message.len(),
        framed(message).skip(LENGTH_PREFIX_LEN as int) == message,
{
    let len = message.len() as int;
    assert(framed(message).take(4) =~= length_prefix(len));
    assert(framed(message).skip(4) =~= message);
    assert(len / 0x100_0000 == 0);
    assert(len / 0x1_0000 < 0x100);
    assert(len / 0x100 % 0x100 == len / 0x100 - len / 0x1_0000 * 0x100);
}

/// Two messages in a row are read back one after the other.
pub proof fn law_frames_do_not_run_together(first: Seq<u8>, rest: Seq<u8>)
    requires
        first.len() <= MAX_IPC_MSG_LEN,
    ensures
        ({
            let stream = framed(first) + rest;
            let len = length_of(stream.take(LENGTH_PREFIX_LEN as int));
            &&& stream.subrange(LENGTH_PREFIX_LEN as int, LENGTH_PREFIX_LEN + len) == first
            &&& stream.skip(LENGTH_PREFIX_LEN + len) == rest
        }),
{
    let stream = framed(first) + rest;
    law_frame_round_trip(first);
    assert(stream.take(4) =~= framed(first).take(4));
    assert(stream.subrange(4, 4 + first.len() as int) =~= first);
    assert(stream.skip(4 + first.len() as int) =~= rest);
}

} // verus!
