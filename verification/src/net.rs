//! IP addresses, socket addresses and networks.

use vstd::arithmetic::power2::{lemma2_to64_rest, lemma_pow2_adds, pow2};
use crate::text::{
    all_digits, chars_of, decimal, decimal_text, digits_value, is_digit, parse_number,
    string_between,
};
use vstd::prelude::*;
use vstd::string::*;

verus! {

/// An IP address as its number.
#[derive(Clone, Copy, Debug, PartialEq, Eq, Hash, Structural)]
pub enum IpAddr {
    V4(u32),
    V6(u128),
}

/// An address and a port.
#[derive(Clone, Copy, Debug, PartialEq, Eq, Hash, Structural)]
pub struct SocketAddr {
    pub ip: IpAddr,
    pub port: u16,
}

/// A network: an address and how many of its leading bits count.
#[derive(Clone, Copy, Debug, PartialEq, Eq, Structural)]
pub struct IpNetwork {
    pub addr: IpAddr,
    pub prefix_len: u8,
}

/// What a text means as an IP address: whether it is IPv6, and its number.
pub uninterp spec fn ip_literal(s: Seq<char>) -> Option<(bool, u128)>;

/// What a text means as a network in CIDR notation: whether it is IPv6, the
/// number of its address, and its prefix length.
pub uninterp spec fn cidr_literal(s: Seq<char>) -> Option<(bool, u128, u8)>;

/// The written form of an IPv6 address by its number.
pub uninterp spec fn ipv6_display(value: u128) -> Seq<char>;

/// `core::net::IpAddr::from_str`: reads an IPv4 or IPv6 literal.
#[verifier::external_body]
fn read_ip(s: &str) -> (r: Option<(bool, u128)>)
    ensures
        r == ip_literal(s@),
        r matches Some(ip) ==> (!ip.0 ==> ip.1 <= u32::MAX),
{
    match s.parse::<core::net::IpAddr>().ok()? {
        core::net::IpAddr::V4(a) => Some((false, u32::from(a) as u128)),
        core::net::IpAddr::V6(a) => Some((true, u128::from(a))),
    }
}

/// `ipnet::IpNet::from_str`: reads a network in CIDR notation. A prefix is
/// never longer than the address.
#[verifier::external_body]
fn read_cidr(s: &str) -> (r: Option<(bool, u128, u8)>)
    ensures
        r == cidr_literal(s@),
        r matches Some(net) ==> net.2 <= 128 && (!net.0 ==> net.1 <= u32::MAX && net.2 <= 32),
{
    match s.parse::<ipnet::IpNet>().ok()? {
        ipnet::IpNet::V4(n) => Some((false, u32::from(n.addr()) as u128, n.prefix_len())),
        ipnet::IpNet::V6(n) => Some((true, u128::from(n.addr()), n.prefix_len())),
    }
}

/// `Display` of `core::net::Ipv6Addr`: the written form of the address.
#[verifier::external_body]
fn write_ipv6(value: u128) -> (r: String)
    ensures
        r@ == ipv6_display(value),
{
    core::net::Ipv6Addr::from(value).to_string()
}

/// The dotted form of an IPv4 address: its four bytes in decimal.
pub open spec fn ipv4_text(value: u32) -> Seq<char> {
    let n = value as nat;
    decimal(n / 0x1000000) + "."@ + decimal(n / 0x10000 % 256) + "."@ + decimal(n / 256 % 256)
        + "."@ + decimal(n % 256)
}

fn write_ipv4(value: u32) -> (r: String)
    ensures
        r@ == ipv4_text(value),
{
    let n: u64 = value as u64;
    decimal_text(n / 0x1000000).concat(".").concat(&decimal_text(n / 0x10000 % 256)).concat(
        ".",
    ).concat(&decimal_text(n / 256 % 256)).concat(".").concat(&decimal_text(n % 256))
}

/// The written form of an address.
pub open spec fn ip_text(ip: IpAddr) -> Seq<char> {
    match ip {
        IpAddr::V4(v) => ipv4_text(v),
        IpAddr::V6(v) => ipv6_display(v),
    }
}

/// The address that a text means.
pub open spec fn ip_of(s: Seq<char>) -> Option<IpAddr> {
    match ip_literal(s) {
        Some((v6, value)) => Some(
            if v6 {
                IpAddr::V6(value)
            } else {
                IpAddr::V4(value as u32)
            },
        ),
        None => None,
    }
}

/// The network that a text means.
pub open spec fn network_of(s: Seq<char>) -> Option<IpNetwork> {
    match cidr_literal(s) {
        Some((v6, value, prefix_len)) => Some(
            IpNetwork {
                addr: if v6 {
                    IpAddr::V6(value)
                } else {
                    IpAddr::V4(value as u32)
                },
                prefix_len,
            },
        ),
        None => None,
    }
}

/// An address is in a network when both are of one family and agree on the
/// leading bits that count.
pub open spec fn in_network(net: IpNetwork, ip: IpAddr) -> bool {
    match (net.addr, ip) {
        (IpAddr::V4(a), IpAddr::V4(b)) => a as int / pow2((32 - net.prefix_len) as nat) as int == b as int
            / pow2((32 - net.prefix_len) as nat) as int,
        (IpAddr::V6(a), IpAddr::V6(b)) => a as int / pow2((128 - net.prefix_len) as nat) as int
            == b as int / pow2((128 - net.prefix_len) as nat) as int,
        _ => false,
    }
}

/// A prefix is never longer than the address.
pub open spec fn valid_network(net: IpNetwork) -> bool {
    match net.addr {
        IpAddr::V4(_) => net.prefix_len <= 32,
        IpAddr::V6(_) => net.prefix_len <= 128,
    }
}

pub open spec fn is_ipv6(ip: IpAddr) -> bool {
    ip is V6
}

impl IpAddr {
    /// Reads an IPv4 or IPv6 literal.
    pub fn parse(s: &str) -> (r: Option<IpAddr>)
        ensures
            r == ip_of(s@),
    {
        match read_ip(s) {
            Some((v6, value)) => if v6 {
                Some(IpAddr::V6(value))
            } else {
                Some(IpAddr::V4(value as u32))
            },
            None => None,
        }
    }

    pub fn is_ipv6(&self) -> (r: bool)
        ensures
            r == is_ipv6(*self),
    {
        match *self {
            IpAddr::V4(_) => false,
            IpAddr::V6(_) => true,
        }
    }

    /// The written form.
    pub fn render(&self) -> (r: String)
        ensures
            r@ == ip_text(*self),
    {
        match *self {
            IpAddr::V4(v) => write_ipv4(v),
            IpAddr::V6(v) => write_ipv6(v),
        }
    }
}

/// The written form of an address with a port; an IPv6 address stands in
/// brackets.
pub open spec fn socket_text(addr: SocketAddr) -> Seq<char> {
    let host = match addr.ip {
        IpAddr::V4(_) => ip_text(addr.ip),
        IpAddr::V6(_) => "["@ + ip_text(addr.ip) + "]"@,
    };
    host + ":"@ + decimal(addr.port as nat)
}

/// The position of the last colon of a text; -1 where there is none.
pub open spec fn last_colon(s: Seq<char>) -> int
    decreases s.len(),
{
    if s.len() == 0 {
        -1
    } else if s.last() == ':' {
        s.len() - 1
    } else {
        last_colon(s.drop_last())
    }
}

/// The address and port that a text means: an IPv4 address, or an IPv6 address
/// in brackets, then a colon and a port in digits.
pub open spec fn socket_of(s: Seq<char>) -> Option<SocketAddr> {
    let at = last_colon(s);
    if at < 0 {
        None
    } else {
        let host = s.take(at);
        let port = s.skip(at + 1);
        let ip = if host.len() > 1 && host[0] == '[' && host.last() == ']' {
            match ip_of(host.subrange(1, host.len() - 1)) {
                Some(IpAddr::V6(v)) => Some(IpAddr::V6(v)),
                _ => None,
            }
        } else {
            match ip_of(host) {
                Some(IpAddr::V4(v)) => Some(IpAddr::V4(v)),
                _ => None,
            }
        };
        match (ip, port.len() > 0 && all_digits(port), digits_value(port) <= u16::MAX) {
            (Some(ip), true, true) => Some(SocketAddr { ip, port: digits_value(port) as u16 }),
            _ => None,
        }
    }
}

impl SocketAddr {
    /// The written form.
    pub fn render(&self) -> (r: String)
        ensures
            r@ == socket_text(*self),
    {
        let host = match self.ip {
            IpAddr::V4(_) => self.ip.render(),
            IpAddr::V6(_) => "[".to_owned().concat(&self.ip.render()).concat("]"),
        };
        host.concat(":").concat(&decimal_text(self.port as u64))
    }

    /// Reads an address with a port.
    pub fn parse(s: &str) -> (r: Option<SocketAddr>)
        ensures
            r == socket_of(s@),
    {
        let chars = chars_of(s);
        let mut at: usize = chars.len();
        assert(chars@.take(at as int) =~= s@);
        while at > 0 && chars[at - 1] != ':'
            invariant
                at <= chars@.len(),
                chars@ == s@,
                last_colon(s@) == last_colon(chars@.take(at as int)),
            decreases at,
        {
            assert(chars@.take(at as int).drop_last() =~= chars@.take(at - 1));
            at -= 1;
        }
        if at == 0 {
            return None;
        }
        let colon: usize = at - 1;
        assert(last_colon(s@) == colon);
        let ghost host = s@.take(colon as int);
        let ghost port = s@.skip(at as int);
        let ip = if colon > 1 && chars[0] == '[' && chars[colon - 1] == ']' {
            let text = string_between(&chars, 1, colon - 1);
            assert(text@ =~= host.subrange(1, host.len() - 1));
            match IpAddr::parse(&text) {
                Some(IpAddr::V6(v)) => IpAddr::V6(v),
                _ => {
                    return None;
                },
            }
        } else {
            let text = string_between(&chars, 0, colon);
            assert(text@ =~= host);
            match IpAddr::parse(&text) {
                Some(IpAddr::V4(v)) => IpAddr::V4(v),
                _ => {
                    return None;
                },
            }
        };
        let digits = string_between(&chars, at, chars.len());
        assert(digits@ =~= port);
        if at < chars.len() && chars[at] == '+' {
            assert(!is_digit(port[0]));
            return None;
        }
        match parse_number(&digits, u16::MAX as u64) {
            Some(n) => Some(SocketAddr { ip, port: n as u16 }),
            None => None,
        }
    }
}

proof fn lemma_u128_below(v: u128)
    ensures
        v as int / pow2(128) as int == 0,
{
    lemma2_to64_rest();
    lemma_pow2_adds(64, 64);
    assert(pow2(64) == 0x10000000000000000);
    assert(0x10000000000000000 * 0x10000000000000000 == 0x100000000000000000000000000000000) by (nonlinear_arith);
    assert(v < pow2(128));
}

fn same_top_bits(a: u128, b: u128, drop: u8) -> (r: bool)
    requires
        drop <= 128,
    ensures
        r == (a as int / pow2(drop as nat) as int == b as int / pow2(drop as nat) as int),
{
    if drop == 128 {
        proof {
            lemma_u128_below(a);
            lemma_u128_below(b);
        }
        true
    } else {
        proof {
            vstd::bits::lemma_u128_shr_is_div(a, drop as u128);
            vstd::bits::lemma_u128_shr_is_div(b, drop as u128);
        }
        (a >> (drop as u128)) == (b >> (drop as u128))
    }
}

impl IpNetwork {
    /// Reads a network in CIDR notation.
    pub fn parse(s: &str) -> (r: Option<IpNetwork>)
        ensures
            r == network_of(s@),
            r matches Some(net) ==> valid_network(net),
    {
        match read_cidr(s) {
            Some((v6, value, prefix_len)) => if v6 {
                Some(IpNetwork { addr: IpAddr::V6(value), prefix_len })
            } else {
                Some(IpNetwork { addr: IpAddr::V4(value as u32), prefix_len })
            },
            None => None,
        }
    }

    /// Whether an address is in the network.
    pub fn contains(&self, ip: &IpAddr) -> (r: bool)
        requires
            valid_network(*self),
        ensures
            r == in_network(*self, *ip),
    {
        match (self.addr, *ip) {
            (IpAddr::V4(a), IpAddr::V4(b)) => same_top_bits(
                a as u128,
                b as u128,
                32 - self.prefix_len,
            ),
            (IpAddr::V6(a), IpAddr::V6(b)) => same_top_bits(a, b, 128 - self.prefix_len),
            _ => false,
        }
    }
}

/// A network contains its own address, whatever its prefix length.
pub proof fn network_contains_its_address(net: IpNetwork)
    ensures
        in_network(net, net.addr),
{
}

/// A network never contains an address of the other family.
pub proof fn families_do_not_mix(net: IpNetwork, ip: IpAddr)
    requires
        is_ipv6(net.addr) != is_ipv6(ip),
    ensures
        !in_network(net, ip),
{
}

} // verus!
