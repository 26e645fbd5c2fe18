//! Numbers and addresses in words.

use crate::addr::{Ipv4Addr, RouterError};
use vstd::prelude::*;

verus! {

/// The character that stands for a digit.
pub open spec fn digit(d: nat) -> char {
    (48 + d) as char
}

/// A number in decimal digits, without leading zeros.
pub open spec fn decimal(n: nat) -> Seq<char>
    decreases n,
{
    if n < 10 {
        seq![digit(n)]
    } else {
        decimal(n / 10).push(digit(n % 10))
    }
}

/// An address written `a.b.c.d`.
pub open spec fn dotted(ip: Ipv4Addr) -> Seq<char> {
    let n = ip.bits as nat;
    decimal(n / 0x100_0000) + "."@ + decimal(n / 0x1_0000 % 0x100) + "."@ + decimal(
        n / 0x100 % 0x100,
    ) + "."@ + decimal(n % 0x100)
}

/// The text that is one digit.
fn digit_text(d: u64) -> (r: &'static str)
    requires
        d < 10,
    ensures
        r@ == seq![digit(d as nat)],
{
    proof {
        reveal_strlit("0");
        reveal_strlit("1");
        reveal_strlit("2");
        reveal_strlit("3");
        reveal_strlit("4");
        reveal_strlit("5");
        reveal_strlit("6");
        reveal_strlit("7");
        reveal_strlit("8");
        reveal_strlit("9");
    }
    let r: &'static str = match d {
        0 => "0",
        1 => "1",
        2 => "2",
        3 => "3",
        4 => "4",
        5 => "5",
        6 => "6",
        7 => "7",
        8 => "8",
        _ => "9",
    };
    assert(r@ =~= seq![digit(d as nat)]);
    r
}

/// Adds a number to a text, in decimal digits.
pub fn append_decimal(text: &mut String, n: u64)
    ensures
        final(text)@ == old(text)@ + decimal(n as nat),
    decreases n,
{
    if n >= 10 {
        append_decimal(text, n / 10);
    }
    text.append(digit_text(n % 10));
    assert(text@ =~= old(text)@ + decimal(n as nat));
}

/// A number that may be negative, in decimal digits.
pub open spec fn signed_decimal(n: int) -> Seq<char> {
    if n < 0 {
        "-"@ + decimal((-n) as nat)
    } else {
        decimal(n as nat)
    }
}

/// Adds a number that may be negative to a text, in decimal digits.
pub fn append_signed_decimal(text: &mut String, n: i64)
    ensures
        final(text)@ == old(text)@ + signed_decimal(n as int),
{
    if n < 0 {
        let size: u64 = (-(n + 1)) as u64 + 1;
        text.append("-");
        append_decimal(text, size);
    } else {
        append_decimal(text, n as u64);
    }
    assert(text@ =~= old(text)@ + signed_decimal(n as int));
}

/// Adds an address to a text, written `a.b.c.d`.
pub fn append_dotted(text: &mut String, ip: Ipv4Addr)
    ensures
        final(text)@ == old(text)@ + dotted(ip),
{
    let n: u64 = ip.bits as u64;
    append_decimal(text, n / 0x100_0000);
    text.append(".");
    append_decimal(text, n / 0x1_0000 % 0x100);
    text.append(".");
    append_decimal(text, n / 0x100 % 0x100);
    text.append(".");
    append_decimal(text, n % 0x100);
    assert(text@ =~= old(text)@ + dotted(ip));
}

/// Addresses written one after another, with a comma between each two.
pub open spec fn listed(ips: Seq<Ipv4Addr>) -> Seq<char>
    decreases ips.len(),
{
    if ips.len() == 0 {
        Seq::empty()
    } else if ips.len() == 1 {
        dotted(ips[0])
    } else {
        listed(ips.drop_last()) + ", "@ + dotted(ips.last())
    }
}

/// Adds addresses to a text, with a comma between each two.
pub fn append_list(text: &mut String, ips: &Vec<Ipv4Addr>)
    ensures
        final(text)@ == old(text)@ + listed(ips@),
{
    let mut i: usize = 0;
    assert(text@ =~= old(text)@ + listed(ips@.take(0)));
    while i < ips.len()
        invariant
            i <= ips.len(),
            text@ == old(text)@ + listed(ips@.take(i as int)),
        decreases ips.len() - i,
    {
        let ghost upto = ips@.take(i + 1);
        assert(upto.drop_last() =~= ips@.take(i as int));
        if i > 0 {
            text.append(", ");
        }
        append_dotted(text, ips[i]);
        assert(text@ =~= old(text)@ + listed(upto));
        i += 1;
    }
    assert(ips@.take(i as int) =~= ips@);
}

impl RouterError {
    /// How the error is put in words.
    pub open spec fn worded(self) -> Seq<char> {
        match self {
            RouterError::NonContiguousMask(mask) => "Invalid non-contiguous subnet mask: "@ + dotted(
                mask,
            ),
            RouterError::InvalidMacLength(len) => "Invalid MAC address length: expected 6, found "@
                + decimal(len as nat),
        }
    }

    /// The error in words.
    pub fn message(&self) -> (r: String)
        ensures
            r@ == self.worded(),
    {
        match *self {
            RouterError::NonContiguousMask(mask) => {
                let mut text = "Invalid non-contiguous subnet mask: ".to_owned();
                append_dotted(&mut text, mask);
                text
            },
            RouterError::InvalidMacLength(len) => {
                let mut text = "Invalid MAC address length: expected 6, found ".to_owned();
                append_decimal(&mut text, len as u64);
                text
            },
        }
    }
}

/// An optional address for the log: in quotes where there is one.
pub struct CleanOption<'a, T>(pub &'a Option<T>);

impl<'a> CleanOption<'a, Ipv4Addr> {
    /// How the option is put in words.
    pub open spec fn worded(self) -> Seq<char> {
        match *self.0 {
            Some(ip) => "\""@ + dotted(ip) + "\""@,
            None => "None"@,
        }
    }

    /// The option in words.
    pub fn text(&self) -> (r: String)
        ensures
            r@ == self.worded(),
    {
        match *self.0 {
            Some(ip) => {
                let mut text = "\"".to_owned();
                append_dotted(&mut text, ip);
                text.append("\"");
                text
            },
            None => "None".to_owned(),
        }
    }
}

} // verus!
