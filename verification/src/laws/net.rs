//! Laws of addresses and networks.

use crate::net::{last_colon, IpAddr, IpNetwork, SocketAddr};
use crate::text::{decimal, decimal_round_trip};
use vstd::arithmetic::power2::{lemma_pow2_pos, pow2};
use vstd::prelude::*;
use vstd::string::*;

verus! {

proof fn lemma_block(a: int, b: int, size: int, k: int)
    requires
        size > 0,
        k * size <= a < (k + 1) * size,
    ensures
        a / size == k,
        b / size == k <==> k * size <= b < (k + 1) * size,
{
    assert(a / size == k) by (nonlinear_arith)
        requires
            size > 0,
            k * size <= a < (k + 1) * size,
    ;
    if k * size <= b < (k + 1) * size {
        assert(b / size == k) by (nonlinear_arith)
            requires
                size > 0,
                k * size <= b < (k + 1) * size,
        ;
    }
    if b / size == k {
        assert(k * size <= b < (k + 1) * size) by (nonlinear_arith)
            requires
                size > 0,
                b / size == k,
        ;
    }
}

/// A network of a prefix length covers the block of addresses that its address
/// lies in, as many as the remaining bits count, and no address outside it or of
/// the other family.
pub proof fn network_covers_its_block(
    network: IpNetwork,
    ip: IpAddr,
    covers: bool,
    base: u128,
    value: u128,
    k: int,
)
    requires
        crate::net::valid_network(network),
        call_ensures(IpNetwork::contains, (&network, &ip), covers),
        match network.addr {
            IpAddr::V4(a) => base == a,
            IpAddr::V6(a) => base == a,
        },
        match ip {
            IpAddr::V4(b) => value == b,
            IpAddr::V6(b) => value == b,
        },
    ensures
        ({
            let bits = if network.addr is V4 {
                32int
            } else {
                128int
            };
            let size = pow2((bits - network.prefix_len) as nat) as int;
            k * size <= base < (k + 1) * size ==> (covers <==> (network.addr is V4 <==> ip is V4)
                && k * size <= value < (k + 1) * size)
        }),
{
    let bits = if network.addr is V4 {
        32int
    } else {
        128int
    };
    let size = pow2((bits - network.prefix_len) as nat) as int;
    lemma_pow2_pos((bits - network.prefix_len) as nat);
    if k * size <= base < (k + 1) * size {
        lemma_block(base as int, value as int, size, k);
    }
}

proof fn lemma_last_colon(host: Seq<char>, port: Seq<char>)
    requires
        forall|i: int| 0 <= i < port.len() ==> port[i] != ':',
    ensures
        last_colon(host + seq![':'] + port) == host.len(),
    decreases port.len(),
{
    let s = host + seq![':'] + port;
    if port.len() == 0 {
        assert(s.last() == ':');
    } else {
        assert(s.last() == port.last());
        assert(s.drop_last() =~= host + seq![':'] + port.drop_last());
        assert forall|i: int| 0 <= i < port.drop_last().len() implies port.drop_last()[i] != ':' by {
            assert(port[i] != ':');
        }
        lemma_last_colon(host, port.drop_last());
    }
}

/// An address with a port is read as the address before its last colon and the
/// number behind it; an IPv6 address stands in brackets, an IPv4 address stands
/// without.
pub proof fn socket_is_read_as_address_and_port(
    text: &str,
    host: &str,
    port: u16,
    ip: Option<IpAddr>,
    socket: Option<SocketAddr>,
)
    requires
        call_ensures(IpAddr::parse, (host,), ip),
        call_ensures(SocketAddr::parse, (text,), socket),
    ensures
        text@ == host@ + seq![':'] + decimal(port as nat) && !(host@.len() > 1 && host@[0] == '['
            && host@.last() == ']') ==> socket == match ip {
            Some(IpAddr::V4(v)) => Some(SocketAddr { ip: IpAddr::V4(v), port }),
            _ => None,
        },
        text@ == seq!['['] + host@ + seq![']'] + seq![':'] + decimal(port as nat) ==> socket
            == match ip {
            Some(IpAddr::V6(v)) => Some(SocketAddr { ip: IpAddr::V6(v), port }),
            _ => None,
        },
{
    let digits = decimal(port as nat);
    decimal_round_trip(port as nat);
    assert forall|i: int| 0 <= i < digits.len() implies digits[i] != ':' by {
        assert(crate::text::is_digit(digits[i]));
    }
    let s = text@;
    if s == host@ + seq![':'] + digits {
        lemma_last_colon(host@, digits);
        assert(s.take(host@.len() as int) =~= host@);
        assert(s.skip(host@.len() as int + 1) =~= digits);
    }
    let framed = seq!['['] + host@ + seq![']'];
    if s == framed + seq![':'] + digits {
        lemma_last_colon(framed, digits);
        assert(s.take(framed.len() as int) =~= framed);
        assert(s.skip(framed.len() as int + 1) =~= digits);
        assert(framed.subrange(1, framed.len() - 1) =~= host@);
    }
}

} // verus!
