//! Names and numbers in words, told of what goes into the functions and what
//! comes out.

use crate::addr::{Ipv4Addr, RouterError};
use crate::dhcp::{option_of, DhcpMessage, OptionView};
use crate::dhcp_client::DhcpError;
use crate::dhcp_server::extract_sanitized_hostname;
use crate::hostname::{first_label, is_valid_label, is_white, sanitize_hostname, trimmed};
use crate::ipc::MessageTooLong;
use crate::supervisor::ServiceError;
use crate::system::panic_cause;
use crate::text::{
    append_decimal, append_dotted, append_list, append_signed_decimal, decimal, dotted, listed,
    CleanOption,
};
use crate::wan::WanLease;
use vstd::prelude::*;

verus! {

/// Whether a character is white space.
pub open spec fn is_blank(c: char) -> bool {
    ||| '\u{9}' <= c <= '\u{d}'
    ||| c == ' '
    ||| c == '\u{85}'
    ||| c == '\u{a0}'
    ||| c == '\u{1680}'
    ||| '\u{2000}' <= c <= '\u{200a}'
    ||| c == '\u{2028}'
    ||| c == '\u{2029}'
    ||| c == '\u{202f}'
    ||| c == '\u{205f}'
    ||| c == '\u{3000}'
}

/// Whether the part of a raw name from `from` to `to` is what is left of its
/// first label, which ends before `dot`, without the white space around it.
pub open spec fn is_core(raw: Seq<char>, from: int, to: int, dot: int) -> bool {
    &&& 0 <= from <= to <= dot <= raw.len()
    &&& dot == raw.len() || raw[dot] == '.'
    &&& forall|i: int| 0 <= i < dot ==> #[trigger] raw[i] != '.'
    &&& forall|i: int| 0 <= i < from ==> is_blank(#[trigger] raw[i])
    &&& forall|i: int| to <= i < dot ==> is_blank(#[trigger] raw[i])
    &&& from < to ==> !is_blank(raw[from]) && !is_blank(raw[to - 1])
}

/// Whether a label can be registered: it has 1 to 63 letters, digits and hyphens,
/// and no hyphen at either end.
pub open spec fn is_good_label(label: Seq<char>) -> bool {
    &&& 1 <= label.len() <= 63
    &&& label[0] != '-'
    &&& label[label.len() - 1] != '-'
    &&& forall|i: int|
        0 <= i < label.len() ==> {
            let c = #[trigger] label[i];
            'a' <= c <= 'z' || 'A' <= c <= 'Z' || '0' <= c <= '9' || c == '-'
        }
}

/// Whether `small` is `c`, or its small letter where `c` is a capital.
pub open spec fn is_small_of(small: char, c: char) -> bool {
    if 'A' <= c <= 'Z' {
        small as u32 == c as u32 + 32
    } else {
        small == c
    }
}

proof fn lemma_core(raw: Seq<char>, from: int, to: int, dot: int)
    requires
        is_core(raw, from, to, dot),
    ensures
        trimmed(first_label(raw)) == raw.subrange(from, to),
{
    lemma_first(raw, dot);
    lemma_trim(raw, 0, dot, from, to);
    assert(raw.take(dot) =~= raw.subrange(0, dot));
}

proof fn lemma_first(raw: Seq<char>, dot: int)
    requires
        0 <= dot <= raw.len(),
        dot == raw.len() || raw[dot] == '.',
        forall|i: int| 0 <= i < dot ==> #[trigger] raw[i] != '.',
    ensures
        first_label(raw) == raw.take(dot),
    decreases raw.len(),
{
    if raw.len() == 0 || dot == 0 {
        assert(raw.take(dot) =~= Seq::empty());
    } else {
        let rest = raw.drop_first();
        assert forall|i: int| 0 <= i < dot - 1 implies #[trigger] rest[i] != '.' by {
            assert(rest[i] == raw[i + 1]);
        }
        assert(raw[0] != '.');
        lemma_first(rest, dot - 1);
        assert(raw.take(dot) =~= seq![raw[0]] + rest.take(dot - 1));
    }
}

proof fn lemma_trim(raw: Seq<char>, start: int, end: int, from: int, to: int)
    requires
        0 <= start <= from <= to <= end <= raw.len(),
        forall|i: int| start <= i < from ==> is_blank(#[trigger] raw[i]),
        forall|i: int| to <= i < end ==> is_blank(#[trigger] raw[i]),
        from < to ==> !is_blank(raw[from]) && !is_blank(raw[to - 1]),
    ensures
        trimmed(raw.subrange(start, end)) == raw.subrange(from, to),
    decreases end - start,
{
    let part = raw.subrange(start, end);
    if start == end {
        assert(part =~= raw.subrange(from, to));
    } else if is_blank(raw[start]) {
        assert(is_white(part[0]));
        assert(part.drop_first() =~= raw.subrange(start + 1, end));
        if start < from {
            lemma_trim(raw, start + 1, end, from, to);
        } else {
            assert(from == to);
            lemma_trim(raw, start + 1, end, from + 1, to + 1);
            assert(raw.subrange(from + 1, to + 1) =~= raw.subrange(from, to));
        }
    } else {
        assert(start == from);
        assert(!is_white(part[0]));
        assert(part.last() == raw[end - 1]);
        if to < end {
            assert(is_white(part.last()));
            assert(part.drop_last() =~= raw.subrange(start, end - 1));
            lemma_trim(raw, start, end - 1, from, to);
        } else {
            assert(part =~= raw.subrange(from, to));
        }
    }
}

/// The hostname of a client is its first label, without the white space around it
/// and in small letters, where that is a label that can be registered; otherwise
/// it has none.
pub proof fn law_hostname_is_the_first_label_in_small_letters(
    raw: &str,
    r: Option<String>,
    from: int,
    to: int,
    dot: int,
)
    requires
        call_ensures(sanitize_hostname, (raw,), r),
        is_core(raw@, from, to, dot),
    ensures
        r is Some <==> is_good_label(raw@.subrange(from, to)),
        r matches Some(name) ==> name@.len() == to - from && forall|i: int|
            0 <= i < name@.len() ==> is_small_of(#[trigger] name@[i], raw@[from + i]),
{
    lemma_core(raw@, from, to, dot);
    let label = raw@.subrange(from, to);
    assert(is_valid_label(label) == is_good_label(label)) by {
        if is_valid_label(label) {
            assert forall|i: int| 0 <= i < label.len() implies ({
                let c = #[trigger] label[i];
                'a' <= c <= 'z' || 'A' <= c <= 'Z' || '0' <= c <= '9' || c == '-'
            }) by {
                assert(crate::hostname::is_label_char(label[i]));
            }
        }
        if is_good_label(label) {
            assert forall|i: int|
                0 <= i < label.len() implies crate::hostname::is_label_char(
                #[trigger] label[i],
            ) by {}
        }
    }
}

/// The hostname in a message is read from its option 12.
pub proof fn law_hostname_is_read_from_its_option(
    dhcp: DhcpMessage,
    r: Option<String>,
    raw: &str,
    clean: Option<String>,
)
    requires
        call_ensures(extract_sanitized_hostname, (&dhcp,), r),
        call_ensures(sanitize_hostname, (raw,), clean),
    ensures
        option_of(dhcp@.options, 12) == Some(OptionView::Text(raw@)) ==> (r is Some <==> clean
            is Some) && (r is Some ==> r->0@ == clean->0@),
        !(option_of(dhcp@.options, 12) matches Some(OptionView::Text(_))) ==> r is None,
{
}

/// The number that digits spell.
pub open spec fn spelt(digits: Seq<char>) -> int
    decreases digits.len(),
{
    if digits.len() == 0 {
        0
    } else {
        spelt(digits.drop_last()) * 10 + (digits.last() as u32 - 48)
    }
}

/// Whether `digits` is a number in decimal digits, without leading zeros.
pub open spec fn is_number(digits: Seq<char>, n: int) -> bool {
    &&& digits.len() > 0
    &&& forall|i: int| 0 <= i < digits.len() ==> '0' <= #[trigger] digits[i] <= '9'
    &&& digits.len() > 1 ==> digits[0] != '0'
    &&& spelt(digits) == n
}

/// A number in decimal digits is one.
pub proof fn lemma_decimal(n: nat)
    ensures
        is_number(decimal(n), n as int),
        n > 0 ==> decimal(n)[0] != '0',
    decreases n,
{
    let digits = decimal(n);
    if n < 10 {
        assert(digits.drop_last() =~= Seq::empty());
        assert(spelt(digits.drop_last()) == 0);
        assert(digits.last() as u32 == 48 + n);
    } else {
        lemma_decimal(n / 10);
        assert(digits.drop_last() =~= decimal(n / 10));
        assert(digits.last() as u32 == 48 + n % 10);
        assert forall|i: int| 0 <= i < digits.len() implies '0' <= #[trigger] digits[i] <= '9' by {
            if i < digits.len() - 1 {
                assert(digits[i] == decimal(n / 10)[i]);
            }
        }
        assert(digits[0] == decimal(n / 10)[0]);
    }
}

/// A number is written in decimal digits.
pub proof fn law_numbers_are_written_in_digits(text: &mut String, n: u64, r: ())
    requires
        call_ensures(append_decimal, (text, n), r),
    ensures
        final(text)@.len() >= old(text)@.len(),
        final(text)@.take(old(text)@.len() as int) == old(text)@,
        is_number(final(text)@.skip(old(text)@.len() as int), n as int),
{
    lemma_decimal(n as nat);
    assert(final(text)@.take(old(text)@.len() as int) =~= old(text)@);
    assert(final(text)@.skip(old(text)@.len() as int) =~= decimal(n as nat));
}

/// An address is written as its four bytes in decimal digits, with dots between
/// them.
pub proof fn law_addresses_are_written_in_four_numbers(text: &mut String, ip: Ipv4Addr, r: ())
    requires
        call_ensures(append_dotted, (text, ip), r),
    ensures
        exists|written: Seq<char>| #[trigger]
            is_written(written, ip) && final(text)@ == old(text)@ + written,
{
    lemma_dotted(ip);
}

/// Whether a text is an address: its four bytes in decimal digits, with dots
/// between them.
pub open spec fn is_written(text: Seq<char>, ip: Ipv4Addr) -> bool {
    exists|a: Seq<char>, b: Seq<char>, c: Seq<char>, d: Seq<char>|
        {
            &&& #[trigger] is_number(a, (ip.bits / 0x100_0000) as int)
            &&& #[trigger] is_number(b, (ip.bits / 0x1_0000 % 0x100) as int)
            &&& #[trigger] is_number(c, (ip.bits / 0x100 % 0x100) as int)
            &&& #[trigger] is_number(d, (ip.bits % 0x100) as int)
            &&& text == a + seq!['.'] + b + seq!['.'] + c + seq!['.'] + d
        }
}

proof fn lemma_dotted(ip: Ipv4Addr)
    ensures
        is_written(dotted(ip), ip),
{
    reveal_strlit(".");
    assert("."@ =~= seq!['.']);
    let n = ip.bits as nat;
    let (a, b, c, d) = (
        decimal(n / 0x100_0000),
        decimal(n / 0x1_0000 % 0x100),
        decimal(n / 0x100 % 0x100),
        decimal(n % 0x100),
    );
    lemma_decimal(n / 0x100_0000);
    lemma_decimal(n / 0x1_0000 % 0x100);
    lemma_decimal(n / 0x100 % 0x100);
    lemma_decimal(n % 0x100);
    assert(dotted(ip) =~= a + seq!['.'] + b + seq!['.'] + c + seq!['.'] + d);
}

/// A number below zero is written with a sign before its digits, any other without.
pub proof fn law_numbers_below_zero_have_a_sign(text: &mut String, n: i64, r: ())
    requires
        call_ensures(append_signed_decimal, (text, n), r),
    ensures
        n < 0 ==> exists|digits: Seq<char>| #[trigger]
            is_number(digits, -n) && final(text)@ == old(text)@ + seq!['-'] + digits,
        n >= 0 ==> exists|digits: Seq<char>| #[trigger]
            is_number(digits, n as int) && final(text)@ == old(text)@ + digits,
{
    reveal_strlit("-");
    assert("-"@ =~= seq!['-']);
    if n < 0 {
        lemma_decimal((-n) as nat);
        assert(final(text)@ =~= old(text)@ + seq!['-'] + decimal((-n) as nat));
    } else {
        lemma_decimal(n as nat);
    }
}

/// Texts one after another, with a comma and a blank between each two.
pub open spec fn with_commas(parts: Seq<Seq<char>>) -> Seq<char>
    decreases parts.len(),
{
    if parts.len() <= 1 {
        if parts.len() == 0 {
            Seq::empty()
        } else {
            parts[0]
        }
    } else {
        with_commas(parts.drop_last()) + seq![',', ' '] + parts.last()
    }
}

/// Whether a text is a list of addresses.
pub open spec fn is_list(text: Seq<char>, ips: Seq<Ipv4Addr>) -> bool {
    exists|parts: Seq<Seq<char>>|
        {
            &&& text == #[trigger] with_commas(parts)
            &&& parts.len() == ips.len()
            &&& forall|i: int| 0 <= i < ips.len() ==> is_written(#[trigger] parts[i], ips[i])
        }
}

proof fn lemma_listed(ips: Seq<Ipv4Addr>)
    ensures
        listed(ips) == with_commas(ips.map_values(|ip: Ipv4Addr| dotted(ip))),
        is_list(listed(ips), ips),
    decreases ips.len(),
{
    let parts = ips.map_values(|ip: Ipv4Addr| dotted(ip));
    reveal_strlit(", ");
    assert(", "@ =~= seq![',', ' ']);
    if ips.len() > 1 {
        lemma_listed(ips.drop_last());
        assert(parts.drop_last() =~= ips.drop_last().map_values(|ip: Ipv4Addr| dotted(ip)));
    }
    assert forall|i: int| 0 <= i < ips.len() implies is_written(#[trigger] parts[i], ips[i]) by {
        lemma_dotted(ips[i]);
    }
}

/// Addresses are listed one after another, with a comma between each two.
pub proof fn law_addresses_are_listed_with_commas(text: &mut String, ips: Vec<Ipv4Addr>, r: ())
    requires
        call_ensures(append_list, (text, &ips), r),
    ensures
        exists|list: Seq<char>| #[trigger]
            is_list(list, ips@) && final(text)@ == old(text)@ + list,
{
    lemma_listed(ips@);
}

/// What is wrong with a mask or a link-layer address is told with the mask, or
/// with the number of octets.
pub proof fn law_address_errors_are_told(
    mask: Ipv4Addr,
    odd_mask: RouterError,
    mask_text: String,
    len: usize,
    odd_len: RouterError,
    len_text: String,
)
    requires
        odd_mask == RouterError::NonContiguousMask(mask),
        call_ensures(RouterError::message, (&odd_mask,), mask_text),
        odd_len == RouterError::InvalidMacLength(len),
        call_ensures(RouterError::message, (&odd_len,), len_text),
    ensures
        exists|written: Seq<char>| #[trigger]
            is_written(written, mask) && mask_text@ == "Invalid non-contiguous subnet mask: "@
                + written,
        exists|digits: Seq<char>| #[trigger]
            is_number(digits, len as int) && len_text@
                == "Invalid MAC address length: expected 6, found "@ + digits,
{
    lemma_dotted(mask);
    lemma_decimal(len as nat);
}

/// Whether a text is an optional address: in quotes where there is one.
pub open spec fn is_optional(text: Seq<char>, ip: Option<Ipv4Addr>) -> bool {
    match ip {
        Some(ip) => exists|written: Seq<char>| #[trigger]
            is_written(written, ip) && text == "\""@ + written + "\""@,
        None => text == "None"@,
    }
}

proof fn lemma_optional(ip: Option<Ipv4Addr>)
    ensures
        is_optional(CleanOption(&ip).worded(), ip),
{
    if let Some(ip) = ip {
        lemma_dotted(ip);
    }
}

/// An optional address is told in quotes where there is one.
pub proof fn law_optional_addresses_are_quoted(ip: Option<Ipv4Addr>, r: String)
    requires
        call_ensures(CleanOption::<Ipv4Addr>::text, (&CleanOption(&ip),), r),
    ensures
        is_optional(r@, ip),
{
    lemma_optional(ip);
}

/// A lease is told with its address, its mask, its gateway and its name servers.
pub proof fn law_lease_is_told_whole(lease: WanLease, r: String)
    requires
        call_ensures(WanLease::text, (&lease,), r),
    ensures
        exists|ip: Seq<char>, mask: Seq<char>, gateway: Seq<char>, servers: Seq<char>|
            {
                &&& #[trigger] is_optional(ip, lease.ip)
                &&& #[trigger] is_optional(mask, lease.mask)
                &&& #[trigger] is_optional(gateway, lease.gateway)
                &&& #[trigger] is_list(servers, lease.dns_servers@)
                &&& r@ == "WanLease { ip: "@ + ip + ", mask: "@ + mask + ", gateway: "@ + gateway
                    + ", dns_servers: ["@ + servers + "] }"@
            },
{
    lemma_optional(lease.ip);
    lemma_optional(lease.mask);
    lemma_optional(lease.gateway);
    lemma_listed(lease.dns_servers@);
}

/// A message that is too long is told with its length, to the sender and to the
/// receiver.
pub proof fn law_long_messages_are_told(e: MessageTooLong, sent: String, received: String)
    requires
        call_ensures(MessageTooLong::sender_message, (&e,), sent),
        call_ensures(MessageTooLong::receiver_message, (&e,), received),
    ensures
        exists|digits: Seq<char>|
            {
                &&& #[trigger] is_number(digits, e.len as int)
                &&& sent@ == "Serialized IPC message length "@ + digits
                    + " exceeds maximum limit of 65536"@
                &&& received@ == "IPC message length "@ + digits
                    + " exceeds maximum limit of 65536"@
            },
{
    lemma_decimal(e.len as nat);
}

/// Why a service was not started or stopped, in words.
pub proof fn law_service_errors_are_told(e: ServiceError, cause: &str, with: String, alone: String)
    requires
        call_ensures(ServiceError::message_with, (&e, cause), with),
        call_ensures(ServiceError::message, (&e,), alone),
    ensures
        with@ == match e {
            ServiceError::AlreadyRunning => "Service is already running"@,
            ServiceError::NotRunning => "Service is not running"@,
            ServiceError::Io(_) => "IO error: "@ + cause@,
            ServiceError::FailedToStart(why) => "Failed to start: "@ + why@,
        },
        !(e is Io) ==> alone@ == with@,
        e is Io ==> exists|why: Seq<char>| alone@ == #[trigger] ("IO error: "@ + why),
{
    let why = choose|why: Seq<char>| alone@ == #[trigger] e.worded(why);
    if e is Io {
        assert(alone@ == "IO error: "@ + why);
    }
}

/// Why there is no lease, in words.
pub proof fn law_lease_errors_are_told(e: DhcpError, r: String)
    requires
        call_ensures(DhcpError::message, (&e,), r),
    ensures
        r@ == match e {
            DhcpError::Io(why) => "IO error: "@ + why@,
            DhcpError::Protocol(why) => "DHCP protocol error: "@ + why@,
            DhcpError::Nak => "DHCPNAK received"@,
            DhcpError::InterfaceNotFound(name) => "Interface not found: "@ + name@,
            DhcpError::RtNetlink(why) => "Netlink error: "@ + why@,
        },
{
}

/// Why a process panicked, in words.
pub proof fn law_panics_are_told(why: Option<&str>, r: String)
    requires
        call_ensures(panic_cause, (why,), r),
    ensures
        why is None ==> r@ == "Panic Cause: Unknown"@,
        why matches Some(text) ==> r@ == "Panic Cause: "@ + text@,
{
}

} // verus!
