//! Base64 with the standard alphabet and padding.

use crate::text::chars_of;
use vstd::prelude::*;
use vstd::string::*;

verus! {

/// The alphabet character for a six-bit value.
#[verifier::opaque]
pub open spec fn symbol(v: int) -> char {
    if v < 26 {
        (('A' as u32) + v) as char
    } else if v < 52 {
        (('a' as u32) + (v - 26)) as char
    } else if v < 62 {
        (('0' as u32) + (v - 52)) as char
    } else if v == 62 {
        '+'
    } else {
        '/'
    }
}

/// The six-bit value of a character; the padding character counts as zero.
#[verifier::opaque]
pub open spec fn symbol_value(c: char) -> Option<int> {
    if 'A' <= c && c <= 'Z' {
        Some((c as u32) - ('A' as u32))
    } else if 'a' <= c && c <= 'z' {
        Some((c as u32) - ('a' as u32) + 26)
    } else if '0' <= c && c <= '9' {
        Some((c as u32) - ('0' as u32) + 52)
    } else if c == '+' {
        Some(62)
    } else if c == '/' {
        Some(63)
    } else if c == '=' {
        Some(0)
    } else {
        None
    }
}

/// The four characters for a group of `count` bytes, missing bytes being zero.
pub open spec fn encode_group(b0: u8, b1: u8, b2: u8, count: int) -> Seq<char> {
    let n = b0 * 65536 + b1 * 256 + b2;
    seq![
        symbol(n / 262144),
        symbol((n / 4096) % 64),
        if count > 1 {
            symbol((n / 64) % 64)
        } else {
            '='
        },
        if count > 2 {
            symbol(n % 64)
        } else {
            '='
        },
    ]
}

/// The padded base64 text of a byte sequence.
pub open spec fn encoded(data: Seq<u8>) -> Seq<char>
    decreases data.len(),
{
    if data.len() == 0 {
        Seq::empty()
    } else if data.len() == 1 {
        encode_group(data[0], 0, 0, 1)
    } else if data.len() == 2 {
        encode_group(data[0], data[1], 0, 2)
    } else {
        encode_group(data[0], data[1], data[2], 3) + encoded(data.skip(3))
    }
}

/// The bytes of one group of four characters.
pub open spec fn decode_group(c0: char, c1: char, c2: char, c3: char) -> Option<Seq<u8>> {
    match (symbol_value(c0), symbol_value(c1), symbol_value(c2), symbol_value(c3)) {
        (Some(a), Some(b), Some(c), Some(d)) => {
            let n = a * 262144 + b * 4096 + c * 64 + d;
            let first = seq![(n / 65536) as u8];
            let second = if c2 != '=' {
                seq![((n / 256) % 256) as u8]
            } else {
                Seq::empty()
            };
            let third = if c3 != '=' {
                seq![(n % 256) as u8]
            } else {
                Seq::empty()
            };
            Some(first + second + third)
        },
        _ => None,
    }
}

/// The bytes that a base64 text stands for; `None` where its length is not a
/// multiple of four or a character is outside the alphabet.
pub open spec fn decoded(s: Seq<char>) -> Option<Seq<u8>>
    decreases s.len(),
{
    if s.len() == 0 {
        Some(Seq::empty())
    } else if s.len() < 4 {
        None
    } else {
        match (decode_group(s[0], s[1], s[2], s[3]), decoded(s.skip(4))) {
            (Some(head), Some(tail)) => Some(head + tail),
            _ => None,
        }
    }
}

proof fn lemma_symbol_value(v: int)
    requires
        0 <= v < 64,
    ensures
        symbol_value(symbol(v)) == Some(v),
        symbol(v) != '=',
        symbol_value('=') == Some(0int),
{
    reveal(symbol);
    reveal(symbol_value);
}

proof fn lemma_sextets(n: int)
    requires
        0 <= n < 16777216,
    ensures
        (n / 262144) * 262144 + ((n / 4096) % 64) * 4096 + ((n / 64) % 64) * 64 + n % 64 == n,
        0 <= n / 262144 < 64,
{
    assert(n / 64 == (n / 4096) * 64 + (n / 64) % 64);
    assert(n / 4096 == (n / 262144) * 64 + (n / 4096) % 64);
}

proof fn lemma_bytes(b0: int, b1: int, b2: int)
    requires
        0 <= b0 < 256,
        0 <= b1 < 256,
        0 <= b2 < 256,
    ensures
        ({
            let n = b0 * 65536 + b1 * 256 + b2;
            &&& 0 <= n < 16777216
            &&& n / 65536 == b0
            &&& (n / 256) % 256 == b1
            &&& n % 256 == b2
            &&& b2 == 0 ==> n % 64 == 0
            &&& b1 == 0 && b2 == 0 ==> (n / 64) % 64 == 0
        }),
{
    let n = b0 * 65536 + b1 * 256 + b2;
    assert(n / 256 == b0 * 256 + b1);
    if b1 == 0 && b2 == 0 {
        assert(n / 64 == b0 * 1024);
    }
}

proof fn lemma_group_round_trip(b0: u8, b1: u8, b2: u8, count: int)
    requires
        1 <= count <= 3,
        count < 3 ==> b2 == 0,
        count < 2 ==> b1 == 0,
    ensures
        ({
            let g = encode_group(b0, b1, b2, count);
            decode_group(g[0], g[1], g[2], g[3]) == Some(seq![b0, b1, b2].take(count))
        }),
{
    let n = b0 * 65536 + b1 * 256 + b2;
    let va = n / 262144;
    let vb = (n / 4096) % 64;
    let vc = (n / 64) % 64;
    let vd = n % 64;
    lemma_sextets(n);
    lemma_symbol_value(va);
    lemma_symbol_value(vb);
    lemma_symbol_value(vc);
    lemma_symbol_value(vd);
    lemma_bytes(b0 as int, b1 as int, b2 as int);
    let g = encode_group(b0, b1, b2, count);
    lemma_decode_values(g[0], g[1], g[2], g[3], va, vb, vc, vd, n);
    let d = decode_group(g[0], g[1], g[2], g[3])->0;
    assert(d =~= seq![b0, b1, b2].take(count));
}

proof fn lemma_decode_values(c0: char, c1: char, c2: char, c3: char, va: int, vb: int, vc: int, vd: int, n: int)
    requires
        symbol_value(c0) == Some(va),
        symbol_value(c1) == Some(vb),
        symbol_value(c2) == Some(vc),
        symbol_value(c3) == Some(vd),
        n == va * 262144 + vb * 4096 + vc * 64 + vd,
    ensures
        decode_group(c0, c1, c2, c3) == Some(
            seq![(n / 65536) as u8] + (if c2 != '=' {
                seq![((n / 256) % 256) as u8]
            } else {
                Seq::empty()
            }) + (if c3 != '=' {
                seq![(n % 256) as u8]
            } else {
                Seq::empty()
            }),
        ),
{
}

/// Decoding gives back what encoding wrote, for every byte sequence.
pub proof fn base64_round_trip(data: Seq<u8>)
    ensures
        decoded(encoded(data)) == Some(data),
    decreases data.len(),
{
    if data.len() == 0 {
        assert(data =~= Seq::empty());
    } else {
        let count = if data.len() > 2 {
            3int
        } else {
            data.len() as int
        };
        let b1 = if count > 1 {
            data[1]
        } else {
            0u8
        };
        let b2 = if count > 2 {
            data[2]
        } else {
            0u8
        };
        let tail = data.skip(count);
        let group = encode_group(data[0], b1, b2, count);
        let s = encoded(data);
        assert(s =~= group + encoded(tail));
        lemma_group_round_trip(data[0], b1, b2, count);
        base64_round_trip(tail);
        assert(s.skip(4) =~= encoded(tail));
        assert(s[0] == group[0] && s[1] == group[1] && s[2] == group[2] && s[3] == group[3]);
        assert(seq![data[0], b1, b2].take(count) + tail =~= data);
    }
}

/// A text of `n` bytes takes four characters per started group of three.
pub proof fn base64_length(data: Seq<u8>)
    ensures
        encoded(data).len() == 4 * ((data.len() + 2) / 3),
    decreases data.len(),
{
    if data.len() > 2 {
        base64_length(data.skip(3));
    }
}

/// Different byte sequences have different texts.
pub proof fn base64_injective(a: Seq<u8>, b: Seq<u8>)
    requires
        encoded(a) == encoded(b),
    ensures
        a == b,
{
    base64_round_trip(a);
    base64_round_trip(b);
}

fn symbol_for(v: u32) -> (r: char)
    requires
        v < 64,
    ensures
        r == symbol(v as int),
{
    reveal(symbol);
    let v8: u8 = v as u8;
    if v < 26 {
        (65u8 + v8) as char
    } else if v < 52 {
        (97u8 + (v8 - 26)) as char
    } else if v < 62 {
        (48u8 + (v8 - 52)) as char
    } else if v == 62 {
        '+'
    } else {
        '/'
    }
}

fn value_of(c: char) -> (r: Option<u32>)
    ensures
        match r {
            Some(v) => symbol_value(c) == Some(v as int) && v < 64,
            None => symbol_value(c) is None,
        },
{
    reveal(symbol_value);
    if 'A' <= c && c <= 'Z' {
        Some((c as u32) - 65)
    } else if 'a' <= c && c <= 'z' {
        Some((c as u32) - 97 + 26)
    } else if '0' <= c && c <= '9' {
        Some((c as u32) - 48 + 52)
    } else if c == '+' {
        Some(62)
    } else if c == '/' {
        Some(63)
    } else if c == '=' {
        Some(0)
    } else {
        None
    }
}

/// Encodes bytes as padded base64.
pub fn base64_encode(data: &[u8]) -> (r: String)
    ensures
        r@ == encoded(data@),
{
    let mut out = String::new();
    let mut i: usize = 0;
    assert(data@.skip(0) =~= data@);
    assert(out@ + encoded(data@) =~= encoded(data@));
    while i < data.len()
        invariant
            i <= data@.len(),
            out@ + encoded(data@.skip(i as int)) == encoded(data@),
        decreases data@.len() - i,
    {
        let left: usize = data.len() - i;
        let b0: u32 = data[i] as u32;
        let b1: u32 = if left > 1 {
            data[i + 1] as u32
        } else {
            0
        };
        let b2: u32 = if left > 2 {
            data[i + 2] as u32
        } else {
            0
        };
        let n: u32 = b0 * 65536 + b1 * 256 + b2;
        let ghost before = out@;
        out.push(symbol_for(n / 262144));
        out.push(symbol_for((n / 4096) % 64));
        if left > 1 {
            out.push(symbol_for((n / 64) % 64));
        } else {
            out.push('=');
        }
        if left > 2 {
            out.push(symbol_for(n % 64));
        } else {
            out.push('=');
        }
        let next: usize = if left > 3 {
            i + 3
        } else {
            data.len()
        };
        proof {
            let rest = data@.skip(i as int);
            let count = if left > 2 { 3int } else { left as int };
            let group = encode_group(b0 as u8, b1 as u8, b2 as u8, count);
            assert(out@ =~= before + group);
            let tail = data@.skip(next as int);
            assert(rest.len() >= 3 ==> rest.skip(3) =~= tail);
            assert(encoded(rest) =~= group + encoded(tail));
            assert(out@ + encoded(tail) =~= before + encoded(rest));
        }
        i = next;
    }
    assert(out@ + encoded(data@.skip(data@.len() as int)) =~= out@);
    out
}

/// Decodes base64, or gives `None` where the text is not base64.
pub fn base64_decode(input: &str) -> (r: Option<Vec<u8>>)
    ensures
        match r {
            Some(v) => decoded(input@) == Some(v@),
            None => decoded(input@) is None,
        },
{
    let chars = chars_of(input);
    let mut out: Vec<u8> = Vec::new();
    let mut i: usize = 0;
    assert(chars@.skip(0) =~= input@);
    while i < chars.len()
        invariant
            i <= chars@.len(),
            chars@ == input@,
            decoded(input@) is None <==> decoded(chars@.skip(i as int)) is None,
            decoded(input@) is Some ==> decoded(input@)->0 == out@ + decoded(
                chars@.skip(i as int),
            )->0,
        decreases chars@.len() - i,
    {
        let ghost rest = chars@.skip(i as int);
        if chars.len() - i < 4 {
            return None;
        }
        let c2 = chars[i + 2];
        let c3 = chars[i + 3];
        let a = match value_of(chars[i]) {
            Some(v) => v,
            None => { return None; },
        };
        let b = match value_of(chars[i + 1]) {
            Some(v) => v,
            None => { return None; },
        };
        let c = match value_of(c2) {
            Some(v) => v,
            None => { return None; },
        };
        let d = match value_of(c3) {
            Some(v) => v,
            None => { return None; },
        };
        let n: u32 = a * 262144 + b * 4096 + c * 64 + d;
        let ghost before = out@;
        out.push((n / 65536) as u8);
        if c2 != '=' {
            out.push(((n / 256) % 256) as u8);
        }
        if c3 != '=' {
            out.push((n % 256) as u8);
        }
        proof {
            let group = decode_group(rest[0], rest[1], rest[2], rest[3])->0;
            assert(out@ =~= before + group);
            assert(rest.skip(4) =~= chars@.skip(i + 4));
            let tail = decoded(rest.skip(4));
            assert(tail is Some ==> before + (group + tail->0) =~= out@ + tail->0);
        }
        i = i + 4;
    }
    assert(decoded(input@) is Some ==> decoded(input@)->0 =~= out@);
    Some(out)
}

} // verus!
