//! Link-layer and IPv4 addresses, subnets and netmasks.

use vstd::prelude::*;

verus! {

/// Nanoseconds in one second.
pub const NANOS_PER_SEC: u64 = 1_000_000_000;

/// An IPv4 address, held as the 32-bit number whose most significant octet is
/// written first.
#[derive(Clone, Copy, Debug, PartialEq, Eq, PartialOrd, Ord, Hash, Structural)]
pub struct Ipv4Addr {
    pub bits: u32,
}

impl Ipv4Addr {
    /// The address written `a.b.c.d`.
    pub fn new(a: u8, b: u8, c: u8, d: u8) -> (r: Ipv4Addr)
        ensures
            r == spec_ipv4(a, b, c, d),
    {
        Ipv4Addr { bits: a as u32 * 0x100_0000 + b as u32 * 0x1_0000 + c as u32 * 0x100 + d as u32 }
    }

    /// The address `0.0.0.0`.
    pub fn unspecified() -> (r: Ipv4Addr)
        ensures
            r.bits == 0,
    {
        Ipv4Addr { bits: 0 }
    }

    /// The address `255.255.255.255`.
    pub fn broadcast() -> (r: Ipv4Addr)
        ensures
            r.bits == 0xffff_ffff,
    {
        Ipv4Addr { bits: 0xffff_ffff }
    }
}

/// The address written `a.b.c.d`.
pub open spec fn spec_ipv4(a: u8, b: u8, c: u8, d: u8) -> Ipv4Addr {
    Ipv4Addr { bits: (a * 0x100_0000 + b * 0x1_0000 + c * 0x100 + d) as u32 }
}

/// An IPv4 address and a UDP port.
#[derive(Clone, Copy, Debug, PartialEq, Eq, Hash, Structural)]
pub struct Endpoint {
    pub ip: Ipv4Addr,
    pub port: u16,
}

/// A 48-bit link-layer address.
#[derive(Clone, Copy, Debug, PartialEq, Eq, PartialOrd, Ord, Hash, Structural)]
pub struct MacAddr(pub u8, pub u8, pub u8, pub u8, pub u8, pub u8);

impl MacAddr {
    pub fn new(a: u8, b: u8, c: u8, d: u8, e: u8, f: u8) -> (r: MacAddr)
        ensures
            r == MacAddr(a, b, c, d, e, f),
    {
        MacAddr(a, b, c, d, e, f)
    }

    /// The all-zero address.
    pub fn zero() -> (r: MacAddr)
        ensures
            r == MacAddr(0, 0, 0, 0, 0, 0),
    {
        MacAddr(0, 0, 0, 0, 0, 0)
    }

    /// The broadcast address.
    pub fn broadcast() -> (r: MacAddr)
        ensures
            r == MacAddr(0xff, 0xff, 0xff, 0xff, 0xff, 0xff),
    {
        MacAddr(0xff, 0xff, 0xff, 0xff, 0xff, 0xff)
    }

    /// The address read as a 48-bit number.
    pub open spec fn number(self) -> u64 {
        (self.0 as u64) << 40 | (self.1 as u64) << 32 | (self.2 as u64) << 24 | (self.3 as u64) << 16
            | (self.4 as u64) << 8 | (self.5 as u64)
    }

    /// The address whose number is `n`.
    pub open spec fn of_number(n: u64) -> MacAddr {
        MacAddr(
            ((n >> 40) & 0xff) as u8,
            ((n >> 32) & 0xff) as u8,
            ((n >> 24) & 0xff) as u8,
            ((n >> 16) & 0xff) as u8,
            ((n >> 8) & 0xff) as u8,
            (n & 0xff) as u8,
        )
    }

    pub fn to_number(&self) -> (r: u64)
        ensures
            r == self.number(),
    {
        (self.0 as u64) << 40 | (self.1 as u64) << 32 | (self.2 as u64) << 24 | (self.3 as u64) << 16
            | (self.4 as u64) << 8 | (self.5 as u64)
    }

    pub fn from_number(n: u64) -> (r: MacAddr)
        ensures
            r == MacAddr::of_number(n),
    {
        MacAddr(
            ((n >> 40) & 0xff) as u8,
            ((n >> 32) & 0xff) as u8,
            ((n >> 24) & 0xff) as u8,
            ((n >> 16) & 0xff) as u8,
            ((n >> 8) & 0xff) as u8,
            (n & 0xff) as u8,
        )
    }
}

/// A link-layer address is determined by its number, which has 48 bits.
pub broadcast proof fn lemma_mac_number_round_trip(mac: MacAddr)
    ensures
        MacAddr::of_number(#[trigger] mac.number()) == mac,
        mac.number() < 0x1_0000_0000_0000,
{
    let (a, b, c, d, e, f) = (mac.0, mac.1, mac.2, mac.3, mac.4, mac.5);
    let n = mac.number();
    assert(((n >> 40) & 0xff) as u8 == a && ((n >> 32) & 0xff) as u8 == b && ((n >> 24)
        & 0xff) as u8 == c && ((n >> 16) & 0xff) as u8 == d && ((n >> 8) & 0xff) as u8 == e && (n
        & 0xff) as u8 == f && n < 0x1_0000_0000_0000) by (bit_vector)
        requires
            n == ((a as u64) << 40 | (b as u64) << 32 | (c as u64) << 24 | (d as u64) << 16 | (
            e as u64) << 8 | (f as u64)),
    ;
}

/// Every number below 2^48 is the number of one link-layer address.
pub broadcast proof fn lemma_mac_of_number_round_trip(n: u64)
    requires
        n < 0x1_0000_0000_0000,
    ensures
        (#[trigger] MacAddr::of_number(n)).number() == n,
{
    assert(((((n >> 40) & 0xff) as u8) as u64) << 40 | ((((n >> 32) & 0xff) as u8) as u64) << 32
        | ((((n >> 24) & 0xff) as u8) as u64) << 24 | ((((n >> 16) & 0xff) as u8) as u64) << 16
        | ((((n >> 8) & 0xff) as u8) as u64) << 8 | (((n & 0xff) as u8) as u64) == n)
        by (bit_vector)
        requires
            n < 0x1_0000_0000_0000,
    ;
}

/// Link-layer addresses and their numbers.
pub broadcast group group_mac_numbers {
    lemma_mac_number_round_trip,
    lemma_mac_of_number_round_trip,
}

/// The netmask whose first `prefix_len` bits are set, or zero where there is no
/// such netmask.
pub open spec fn netmask(prefix_len: u8) -> u32 {
    if prefix_len == 0 || prefix_len > 32 {
        0
    } else {
        0xffff_ffffu32 << (32 - prefix_len) as u32
    }
}

/// Why an address could not be read.
#[derive(Clone, Copy, Debug, PartialEq, Eq, Structural)]
pub enum RouterError {
    /// The set bits of the mask are not its leading bits.
    NonContiguousMask(Ipv4Addr),
    /// A link-layer address has six octets, not this many.
    InvalidMacLength(usize),
}

/// The number of leading one bits of a contiguous netmask.
pub fn mask_to_prefix_len(mask: Ipv4Addr) -> (r: Result<u8, RouterError>)
    ensures
        match r {
            Ok(len) => len <= 32 && mask.bits == netmask(len),
            Err(e) => e == RouterError::NonContiguousMask(mask) && forall|other: u8|
                #[trigger] netmask(other) != mask.bits,
        },
{
    let mask_u32: u32 = mask.bits;
    let leading_ones: u32 = mask_u32.leading_ones();
    let trailing_zeros: u32 = mask_u32.trailing_zeros();
    proof {
        vstd::std_specs::bits::axiom_u32_leading_ones(mask_u32);
        vstd::std_specs::bits::axiom_u32_trailing_zeros(mask_u32);
        lemma_netmask_bits(mask_u32, leading_ones, trailing_zeros);
    }
    if leading_ones + trailing_zeros != 32 {
        return Err(RouterError::NonContiguousMask(mask));
    }
    Ok(leading_ones as u8)
}

/// A word is a netmask exactly where its leading ones and its trailing zeros
/// make up all of it.
proof fn lemma_netmask_bits(m: u32, ones: u32, zeros: u32)
    requires
        ones <= 32,
        zeros <= 32,
        m == 0xffff_ffffu32 <==> ones == 32,
        m == 0 <==> zeros == 32,
        ones < 32 ==> (m >> (31 - ones) as u32) & 1u32 == 0u32,
        (!m) >> (32 - ones) as u32 == 0,
        zeros < 32 ==> (m >> zeros) & 1u32 == 1u32,
        m << (32 - zeros) as u32 == 0,
    ensures
        ones + zeros == 32 ==> netmask(ones as u8) == m,
        ones + zeros != 32 ==> forall|len: u8| #[trigger] netmask(len) != m,
{
    if ones + zeros == 32 {
        if ones != 0 {
            assert(m == 0xffff_ffffu32 << zeros) by (bit_vector)
                requires
                    0 < ones <= 32,
                    ones + zeros == 32,
                    (!m) >> zeros == 0,
                    m << ones == 0 || ones == 32,
                    ones == 32 ==> m == 0xffff_ffffu32,
            ;
        }
    } else {
        assert forall|len: u8| #[trigger] netmask(len) != m by {
            let k: u32 = if len == 0 || len > 32 {
                32
            } else {
                (32 - len) as u32
            };
            let below: u32 = (32 - ones) as u32;
            let above: u32 = (32 - zeros) as u32;
            assert(0xffff_ffffu32 << k != m) by (bit_vector)
                requires
                    k <= 32,
                    ones <= 32,
                    zeros <= 32,
                    ones + zeros != 32,
                    below + ones == 32,
                    above + zeros == 32,
                    m == 0xffff_ffffu32 <==> ones == 32,
                    m == 0 <==> zeros == 32,
                    ones < 32 ==> (m >> (below - 1) as u32) & 1u32 == 0u32,
                    (!m) >> below == 0,
                    zeros < 32 ==> (m >> zeros) & 1u32 == 1u32,
                    m << above == 0,
            ;
            assert(0xffff_ffffu32 << 32u32 == 0) by (bit_vector);
        }
    }
}

/// The netmask with `prefix_len` leading ones; `0.0.0.0` for a length that no
/// netmask has.
pub fn prefix_len_to_mask(prefix_len: u8) -> (r: Ipv4Addr)
    ensures
        r.bits == netmask(prefix_len),
{
    if prefix_len == 0 || prefix_len > 32 {
        Ipv4Addr::unspecified()
    } else {
        Ipv4Addr { bits: 0xffff_ffffu32 << (32 - prefix_len) as u32 }
    }
}

/// Distinct prefix lengths have distinct netmasks.
pub proof fn law_netmask_injective(a: u8, b: u8)
    requires
        a <= 32,
        b <= 32,
        netmask(a) == netmask(b),
    ensures
        a == b,
{
    let (x, y) = ((32 - a) as u32, (32 - b) as u32);
    assert(x <= 32 && y <= 32 && 0xffff_ffffu32 << x == 0xffff_ffffu32 << y ==> x == y)
        by (bit_vector);
    assert(0xffff_ffffu32 << 32u32 == 0) by (bit_vector);
}

/// The link-layer address that six octets spell.
pub fn mac_from_slice(slice: &[u8]) -> (r: Result<MacAddr, RouterError>)
    ensures
        match r {
            Ok(mac) => slice@ == seq![mac.0, mac.1, mac.2, mac.3, mac.4, mac.5],
            Err(e) => e == RouterError::InvalidMacLength(slice.len()) && slice.len() != 6,
        },
{
    if slice.len() == 6 {
        Ok(MacAddr(slice[0], slice[1], slice[2], slice[3], slice[4], slice[5]))
    } else {
        Err(RouterError::InvalidMacLength(slice.len()))
    }
}

/// An address together with the length of the prefix that its subnet shares.
#[derive(Clone, Copy, Debug, PartialEq, Eq, Hash, Structural)]
pub struct Ipv4Net {
    pub addr: Ipv4Addr,
    pub prefix_len: u8,
}

impl Ipv4Net {
    /// Whether the prefix length is one that an IPv4 subnet can have.
    pub open spec fn wf(self) -> bool {
        self.prefix_len <= 32
    }

    /// The lowest address of the subnet.
    pub open spec fn first(self) -> u32 {
        self.addr.bits & netmask(self.prefix_len)
    }

    /// The highest address of the subnet.
    pub open spec fn last(self) -> u32 {
        self.addr.bits | !netmask(self.prefix_len)
    }

    /// Whether `ip` lies in the subnet.
    pub open spec fn has(self, ip: Ipv4Addr) -> bool {
        self.first() <= ip.bits <= self.last()
    }

    /// The lowest address that a host of the subnet may have: where there are
    /// more than two addresses, the lowest names the subnet itself.
    pub open spec fn first_host(self) -> int {
        if self.prefix_len < 31 {
            self.first() + 1
        } else {
            self.first() as int
        }
    }

    /// The highest address that a host of the subnet may have: where there are
    /// more than two addresses, the highest is the broadcast address.
    pub open spec fn last_host(self) -> int {
        if self.prefix_len < 31 {
            self.last() - 1
        } else {
            self.last() as int
        }
    }

    /// Whether `ip` is an address that a host of the subnet may have.
    pub open spec fn has_host(self, ip: Ipv4Addr) -> bool {
        self.first_host() <= ip.bits <= self.last_host()
    }

    /// The subnet of `addr` with the given prefix length, where there is one.
    pub fn new(addr: Ipv4Addr, prefix_len: u8) -> (r: Option<Ipv4Net>)
        ensures
            r == if prefix_len <= 32 {
                Some(Ipv4Net { addr, prefix_len })
            } else {
                None
            },
    {
        if prefix_len <= 32 {
            Some(Ipv4Net { addr, prefix_len })
        } else {
            None
        }
    }

    /// Reads `a.b.c.d/len`.
    pub fn parse(text: &str) -> (r: Option<Ipv4Net>)
        ensures
            r == subnet_in(text@),
            r is Some ==> r->0.wf(),
    {
        match parse_subnet(text) {
            Some((bits, prefix_len)) => Some(Ipv4Net { addr: Ipv4Addr { bits }, prefix_len }),
            None => None,
        }
    }

    /// The lowest address of the subnet.
    pub fn network(&self) -> (r: Ipv4Addr)
        requires
            self.wf(),
        ensures
            r.bits == self.first(),
    {
        Ipv4Addr { bits: subnet_network(self.addr.bits, self.prefix_len) }
    }

    /// The highest address of the subnet.
    pub fn broadcast(&self) -> (r: Ipv4Addr)
        requires
            self.wf(),
        ensures
            r.bits == self.last(),
    {
        Ipv4Addr { bits: subnet_broadcast(self.addr.bits, self.prefix_len) }
    }

    /// Whether `ip` lies in the subnet.
    pub fn contains(&self, ip: Ipv4Addr) -> (r: bool)
        requires
            self.wf(),
        ensures
            r == self.has(ip),
    {
        subnet_contains(self.addr.bits, self.prefix_len, ip.bits)
    }

    /// The `n`th address that a host of the subnet may have, counted from zero.
    pub fn host(&self, n: u32) -> (r: Option<Ipv4Addr>)
        requires
            self.wf(),
        ensures
            r is Some <==> self.first_host() + n <= self.last_host(),
            r matches Some(ip) ==> ip.bits == self.first_host() + n,
    {
        match subnet_host(self.addr.bits, self.prefix_len, n) {
            Some(bits) => Some(Ipv4Addr { bits }),
            None => None,
        }
    }
}

/// The subnet of the address with the given number.
pub open spec fn subnet(addr: u32, prefix_len: u8) -> Ipv4Net {
    Ipv4Net { addr: Ipv4Addr { bits: addr }, prefix_len }
}

/// The address and the prefix length that `text` spells as `a.b.c.d/len`.
pub uninterp spec fn parsed_subnet(text: Seq<char>) -> Option<(u32, u8)>;

/// The subnet that `text` spells as `a.b.c.d/len`.
pub open spec fn subnet_in(text: Seq<char>) -> Option<Ipv4Net> {
    match parsed_subnet(text) {
        Some((bits, prefix_len)) => Some(subnet(bits, prefix_len)),
        None => None,
    }
}

/// The `FromStr` of `ipnet::Ipv4Net`: what it reads depends on the text alone,
/// and the prefix length of a subnet that it accepts is at most 32.
#[verifier::external_body]
fn parse_subnet(text: &str) -> (r: Option<(u32, u8)>)
    ensures
        r == parsed_subnet(text@),
        r is Some ==> (r->0).1 <= 32,
{
    text.parse::<ipnet::Ipv4Net>().ok().map(|net| (u32::from(net.addr()), net.prefix_len()))
}

/// `ipnet::Ipv4Net::network`: the address with the bits below the prefix
/// cleared.
#[verifier::external_body]
fn subnet_network(addr: u32, prefix_len: u8) -> (r: u32)
    requires
        prefix_len <= 32,
    ensures
        r == addr & netmask(prefix_len),
{
    u32::from(ipnet::Ipv4Net::new_assert(addr.into(), prefix_len).network())
}

/// `ipnet::Ipv4Net::broadcast`: the address with the bits below the prefix
/// set.
#[verifier::external_body]
fn subnet_broadcast(addr: u32, prefix_len: u8) -> (r: u32)
    requires
        prefix_len <= 32,
    ensures
        r == addr | !netmask(prefix_len),
{
    u32::from(ipnet::Ipv4Net::new_assert(addr.into(), prefix_len).broadcast())
}

/// `ipnet::Ipv4Net::contains` of an address: whether the address lies between
/// the lowest and the highest of the subnet.
#[verifier::external_body]
fn subnet_contains(addr: u32, prefix_len: u8, ip: u32) -> (r: bool)
    requires
        prefix_len <= 32,
    ensures
        r == (subnet(addr, prefix_len).first() <= ip <= subnet(addr, prefix_len).last()),
{
    let ip = ipnet::Ipv4Net::new_assert(ip.into(), 32).addr();
    ipnet::Ipv4Net::new_assert(addr.into(), prefix_len).contains(&ip)
}

/// The `n`th item of `ipnet::Ipv4Net::hosts`: the iterator walks from the
/// lowest host address of the subnet to the highest, leaving out the lowest and
/// the highest address where the prefix is shorter than 31 bits.
#[verifier::external_body]
fn subnet_host(addr: u32, prefix_len: u8, n: u32) -> (r: Option<u32>)
    requires
        prefix_len <= 32,
    ensures
        r is Some <==> subnet(addr, prefix_len).first_host() + n <= subnet(
            addr,
            prefix_len,
        ).last_host(),
        r matches Some(ip) ==> ip == subnet(addr, prefix_len).first_host() + n,
{
    ipnet::Ipv4Net::new_assert(addr.into(), prefix_len).hosts().nth(n as usize).map(u32::from)
}

} // verus!
