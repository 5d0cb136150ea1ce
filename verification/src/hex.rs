//! Hexadecimal text of bytes.

use crate::text::chars_of;
use vstd::prelude::*;
use vstd::string::*;

verus! {

/// The lower-case hexadecimal digit for a four-bit value.
pub open spec fn hex_digit(v: int) -> char {
    if v < 10 {
        (('0' as u32) + v) as char
    } else {
        (('a' as u32) + (v - 10)) as char
    }
}

/// The four-bit value of a hexadecimal digit of either case.
pub open spec fn hex_value(c: char) -> Option<int> {
    if '0' <= c && c <= '9' {
        Some((c as u32) - ('0' as u32))
    } else if 'a' <= c && c <= 'f' {
        Some((c as u32) - ('a' as u32) + 10)
    } else if 'A' <= c && c <= 'F' {
        Some((c as u32) - ('A' as u32) + 10)
    } else {
        None
    }
}

/// Two lower-case digits for each byte.
pub open spec fn hex_text(bytes: Seq<u8>) -> Seq<char> {
    Seq::new(
        2 * bytes.len(),
        |i: int|
            if i % 2 == 0 {
                hex_digit((bytes[i / 2] as int) / 16)
            } else {
                hex_digit((bytes[i / 2] as int) % 16)
            },
    )
}

pub open spec fn is_hex(s: Seq<char>) -> bool {
    forall|i: int| 0 <= i < s.len() ==> hex_value(#[trigger] s[i]) is Some
}

/// The bytes that an even number of hexadecimal digits stand for.
pub open spec fn hex_bytes(s: Seq<char>) -> Option<Seq<u8>> {
    if s.len() % 2 == 0 && is_hex(s) {
        Some(
            Seq::new(
                s.len() / 2,
                |i: int| (hex_value(s[2 * i])->0 * 16 + hex_value(s[2 * i + 1])->0) as u8,
            ),
        )
    } else {
        None
    }
}

/// Reading the hexadecimal text of bytes gives the bytes back.
pub proof fn hex_round_trip(bytes: Seq<u8>)
    ensures
        hex_bytes(hex_text(bytes)) == Some(bytes),
{
    let s = hex_text(bytes);
    assert forall|i: int| 0 <= i < s.len() implies hex_value(#[trigger] s[i]) is Some by {
        assert(0 <= i / 2 < bytes.len());
    }
    assert forall|i: int| 0 <= i < bytes.len() implies #[trigger] hex_bytes(s)->0[i] == bytes[i] by {
        assert(s[2 * i] == hex_digit((bytes[i] as int) / 16));
        assert(s[2 * i + 1] == hex_digit((bytes[i] as int) % 16));
    }
    assert(hex_bytes(s)->0 =~= bytes);
}

fn digit_for(v: u8) -> (r: char)
    requires
        v < 16,
    ensures
        r == hex_digit(v as int),
{
    if v < 10 {
        (48u8 + v) as char
    } else {
        (97u8 + (v - 10)) as char
    }
}

/// The value of one hexadecimal digit.
pub fn hex_nibble(c: char) -> (r: Option<u8>)
    ensures
        match r {
            Some(v) => hex_value(c) == Some(v as int) && v < 16,
            None => hex_value(c) is None,
        },
{
    if '0' <= c && c <= '9' {
        Some((c as u8) - 48)
    } else if 'a' <= c && c <= 'f' {
        Some((c as u8) - 97 + 10)
    } else if 'A' <= c && c <= 'F' {
        Some((c as u8) - 65 + 10)
    } else {
        None
    }
}

/// Writes bytes as lower-case hexadecimal text.
pub fn hex_encode(bytes: &[u8]) -> (r: String)
    ensures
        r@ == hex_text(bytes@),
{
    let mut out = String::new();
    let mut i: usize = 0;
    while i < bytes.len()
        invariant
            i <= bytes@.len(),
            out@ == hex_text(bytes@).take(2 * i),
        decreases bytes@.len() - i,
    {
        let ghost before = out@;
        out.push(digit_for(bytes[i] / 16));
        out.push(digit_for(bytes[i] % 16));
        assert(hex_text(bytes@)[2 * i] == hex_digit((bytes@[i as int] as int) / 16));
        assert(hex_text(bytes@)[2 * i + 1] == hex_digit((bytes@[i as int] as int) % 16));
        assert(out@ =~= hex_text(bytes@).take(2 * (i + 1)));
        i += 1;
    }
    assert(hex_text(bytes@).take(2 * bytes@.len() as int) =~= hex_text(bytes@));
    out
}

/// Reads an even number of hexadecimal digits.
pub fn hex_decode(input: &str) -> (r: Option<Vec<u8>>)
    ensures
        match r {
            Some(v) => hex_bytes(input@) == Some(v@),
            None => hex_bytes(input@) is None,
        },
{
    let chars = chars_of(input);
    if chars.len() % 2 != 0 {
        return None;
    }
    let mut out: Vec<u8> = Vec::new();
    let mut i: usize = 0;
    while i < chars.len()
        invariant
            i <= chars@.len(),
            i % 2 == 0,
            chars@.len() % 2 == 0,
            chars@ == input@,
            out@.len() == i / 2,
            forall|k: int| 0 <= k < i ==> hex_value(#[trigger] chars@[k]) is Some,
            forall|k: int| #![trigger out@[k]]
                0 <= k < out@.len() ==> out@[k] == (hex_value(chars@[2 * k])->0 * 16 + hex_value(
                    chars@[2 * k + 1],
                )->0) as u8,
        decreases chars@.len() - i,
    {
        let high = match hex_nibble(chars[i]) {
            Some(v) => v,
            None => { return None; },
        };
        let low = match hex_nibble(chars[i + 1]) {
            Some(v) => v,
            None => { return None; },
        };
        out.push(high * 16 + low);
        i += 2;
    }
    assert(out@ =~= hex_bytes(input@)->0);
    Some(out)
}

} // verus!
