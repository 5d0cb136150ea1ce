//! Numbers in network byte order.

use vstd::prelude::*;

verus! {

/// The big-endian bytes of a number, as many as `width`.
pub open spec fn be_bytes(n: nat, width: nat) -> Seq<u8>
    decreases width,
{
    if width == 0 {
        Seq::empty()
    } else {
        be_bytes(n / 256, (width - 1) as nat).push((n % 256) as u8)
    }
}

/// The number that big-endian bytes stand for.
pub open spec fn be_value(s: Seq<u8>) -> nat
    decreases s.len(),
{
    if s.len() == 0 {
        0
    } else {
        be_value(s.drop_last()) * 256 + s.last() as nat
    }
}

pub open spec fn pow256(width: nat) -> nat
    decreases width,
{
    if width == 0 {
        1
    } else {
        256 * pow256((width - 1) as nat)
    }
}

pub proof fn lemma_be_bytes_len(n: nat, width: nat)
    ensures
        be_bytes(n, width).len() == width,
    decreases width,
{
    if width > 0 {
        lemma_be_bytes_len(n / 256, (width - 1) as nat);
    }
}

/// A number that fits comes back from its bytes.
pub proof fn be_round_trip(n: nat, width: nat)
    requires
        n < pow256(width),
    ensures
        be_value(be_bytes(n, width)) == n,
        be_bytes(n, width).len() == width,
    decreases width,
{
    if width > 0 {
        be_round_trip(n / 256, (width - 1) as nat);
        assert(be_bytes(n, width).drop_last() =~= be_bytes(n / 256, (width - 1) as nat));
    }
}

pub proof fn lemma_be_value_bound(s: Seq<u8>)
    ensures
        be_value(s) < pow256(s.len()),
    decreases s.len(),
{
    if s.len() > 0 {
        lemma_be_value_bound(s.drop_last());
    }
}

pub proof fn lemma_pow256()
    ensures
        pow256(1) == 0x100,
        pow256(2) == 0x10000,
        pow256(3) == 0x1000000,
        pow256(4) == 0x1_0000_0000,
        pow256(8) == 0x1_0000_0000_0000_0000,
        pow256(16) == 0x1_0000_0000_0000_0000_0000_0000_0000_0000,
{
    reveal_with_fuel(pow256, 17);
}

/// The big-endian bytes of a number, as many as `width`.
pub fn to_be(n: u64, width: usize) -> (r: Vec<u8>)
    ensures
        r@ == be_bytes(n as nat, width as nat),
    decreases width,
{
    if width == 0 {
        Vec::new()
    } else {
        let mut out = to_be(n / 256, width - 1);
        out.push((n % 256) as u8);
        out
    }
}

/// The big-endian bytes of a wide number, as many as `width`.
pub fn to_be_wide(n: u128, width: usize) -> (r: Vec<u8>)
    ensures
        r@ == be_bytes(n as nat, width as nat),
    decreases width,
{
    if width == 0 {
        Vec::new()
    } else {
        let mut out = to_be_wide(n / 256, width - 1);
        out.push((n % 256) as u8);
        out
    }
}

/// The number that at most eight big-endian bytes stand for.
pub fn from_be(bytes: &[u8], count: usize) -> (r: u64)
    requires
        count <= bytes@.len(),
        count <= 8,
    ensures
        r == be_value(bytes@.take(count as int)),
{
    let mut i: usize = 0;
    let mut value: u64 = 0;
    while i < count
        invariant
            i <= count <= bytes@.len(),
            count <= 8,
            value == be_value(bytes@.take(i as int)),
        decreases count - i,
    {
        proof {
            let next = bytes@.take(i + 1);
            assert(next.drop_last() =~= bytes@.take(i as int));
            lemma_be_value_bound(next);
            lemma_pow256_monotone((i + 1) as nat, 8);
            lemma_pow256();
        }
        value = value * 256 + bytes[i] as u64;
        i += 1;
    }
    value
}

pub proof fn lemma_pow256_monotone(a: nat, b: nat)
    requires
        a <= b,
    ensures
        pow256(a) <= pow256(b),
    decreases b,
{
    if a < b {
        lemma_pow256_monotone(a, (b - 1) as nat);
    }
}

/// The number whose two's complement in 32 bits is `n`.
pub open spec fn signed32(n: nat) -> int {
    if n < 0x8000_0000 {
        n as int
    } else {
        n - 0x1_0000_0000
    }
}

/// The two's complement of a number in 32 bits.
pub open spec fn twos32(n: int) -> nat {
    if n >= 0 {
        n as nat
    } else {
        (n + 0x1_0000_0000) as nat
    }
}

pub fn to_twos32(n: i32) -> (r: u64)
    ensures
        r == twos32(n as int),
{
    if n >= 0 {
        n as u64
    } else {
        (n as i64 + 0x1_0000_0000) as u64
    }
}

pub fn from_twos32(n: u64) -> (r: i32)
    requires
        n < 0x1_0000_0000,
    ensures
        r == signed32(n as nat),
{
    if n < 0x8000_0000 {
        n as i32
    } else {
        (n as i64 - 0x1_0000_0000) as i32
    }
}

} // verus!
