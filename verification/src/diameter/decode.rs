//! Messages from the wire.
//!
//! The dictionary says which AVPs hold further AVPs. A message whose lengths do
//! not add up is no message.

use super::codec::{
    append_bytes, avp_frame, avp_is_aligned, avp_wire, avps_text, avps_wire, lemma_grouped, message_wire, padding, Avp, AvpData,
    AvpText, DataText, DiameterMsg, MsgText,
};
use super::dictionary::{def_by_code, AvpType, DictText, Dictionary};
use crate::bytes::{
    be_bytes, be_round_trip, be_value, from_be, lemma_be_bytes_len, lemma_be_value_bound,
    lemma_pow256,
};
use vstd::prelude::*;
use vstd::slice::slice_subrange;

verus! {

/// The frame of the AVP at the start of some bytes: its header fields, where
/// its data begins and ends, and how many bytes it takes with its padding.
pub struct Frame {
    pub code: u32,
    pub vendor: u32,
    pub flags: u8,
    pub start: usize,
    pub end: usize,
    pub used: usize,
}

/// The same as mathematical data.
pub struct FrameText {
    pub code: u32,
    pub vendor: u32,
    pub flags: u8,
    pub start: int,
    pub end: int,
    pub used: int,
}

impl View for Frame {
    type V = FrameText;

    open spec fn view(&self) -> FrameText {
        FrameText {
            code: self.code,
            vendor: self.vendor,
            flags: self.flags,
            start: self.start as int,
            end: self.end as int,
            used: self.used as int,
        }
    }
}

/// The next multiple of four.
pub open spec fn aligned(len: int) -> int {
    len + (4 - len % 4) % 4
}

/// The frame at the start of `s`. The header, the announced length and the
/// padding must be there.
pub open spec fn frame_of(s: Seq<u8>) -> Option<FrameText> {
    if s.len() < 8 {
        None
    } else {
        let has_vendor = s[4] >= 128;
        let start: int = if has_vendor {
            12
        } else {
            8
        };
        let end = be_value(s.subrange(5, 8)) as int;
        if end < start || aligned(end) > s.len() {
            None
        } else {
            Some(
                FrameText {
                    code: be_value(s.take(4)) as u32,
                    vendor: if has_vendor {
                        be_value(s.subrange(8, 12)) as u32
                    } else {
                        0
                    },
                    flags: s[4],
                    start,
                    end,
                    used: aligned(end),
                },
            )
        }
    }
}

/// Whether the dictionary lets an AVP hold further AVPs.
pub open spec fn is_group(dict: DictText, code: u32, vendor: u32) -> bool {
    match def_by_code(dict.avps, code, vendor) {
        Some(def) => def.data_type == AvpType::Grouped,
        None => false,
    }
}

/// The AVPs that fill `s`, one frame after the other.
pub open spec fn avps_of(dict: DictText, s: Seq<u8>) -> Option<Seq<AvpText>>
    decreases s.len(),
{
    if s.len() == 0 {
        Some(Seq::empty())
    } else {
        match frame_of(s) {
            None => None,
            Some(f) => {
                if 8 <= f.start <= f.end <= f.used <= s.len() {
                    let data = s.subrange(f.start, f.end);
                    let value = if is_group(dict, f.code, f.vendor) {
                        match avps_of(dict, data) {
                            Some(children) => Some(DataText::Grouped(children)),
                            None => None,
                        }
                    } else {
                        Some(DataText::Raw(data))
                    };
                    match (value, avps_of(dict, s.skip(f.used))) {
                        (Some(value), Some(rest)) => Some(
                            seq![
                                AvpText { code: f.code, vendor: f.vendor, flags: f.flags, value },
                            ] + rest,
                        ),
                        _ => None,
                    }
                } else {
                    None
                }
            },
        }
    }
}

/// The message that `s` is: version one, the announced length, and AVPs to the
/// end.
pub open spec fn message_of(dict: DictText, s: Seq<u8>) -> Option<MsgText> {
    if s.len() < 20 || s[0] != 1 || be_value(s.subrange(1, 4)) != s.len() {
        None
    } else {
        match avps_of(dict, s.skip(20)) {
            Some(avps) => Some(
                MsgText {
                    flags: s[4],
                    command_code: be_value(s.subrange(5, 8)) as u32,
                    application_id: be_value(s.subrange(8, 12)) as u32,
                    hop_by_hop: be_value(s.subrange(12, 16)) as u32,
                    end_to_end: be_value(s.subrange(16, 20)) as u32,
                    avps,
                },
            ),
            None => None,
        }
    }
}

/// The number in `width` bytes at `at`.
fn number_at(bytes: &[u8], at: usize, width: usize) -> (r: u32)
    requires
        at + width <= bytes@.len(),
        width <= 4,
    ensures
        r == be_value(bytes@.subrange(at as int, at + width)),
        r < crate::bytes::pow256(width as nat),
{
    let total: usize = bytes.len();
    assert(at + width <= total);
    let part = slice_subrange(bytes, at, at + width);
    proof {
        lemma_be_value_bound(part@);
        lemma_pow256();
        crate::bytes::lemma_pow256_monotone(width as nat, 4);
        assert(part@.take(width as int) =~= part@);
    }
    from_be(part, width) as u32
}

/// Reads the frame at the start of some bytes.
fn read_frame(bytes: &[u8]) -> (r: Option<Frame>)
    ensures
        match r {
            Some(f) => frame_of(bytes@) == Some(f@),
            None => frame_of(bytes@) is None,
        },
{
    if bytes.len() < 8 {
        return None;
    }
    let code = number_at(bytes, 0, 4);
    let flags = bytes[4];
    let end: usize = number_at(bytes, 5, 3) as usize;
    let start: usize = if flags >= 128 {
        12
    } else {
        8
    };
    proof {
        lemma_pow256();
        assert(bytes@.subrange(0, 4) =~= bytes@.take(4));
    }
    let used: usize = end + (4 - end % 4) % 4;
    if end < start || used > bytes.len() {
        return None;
    }
    let vendor = if flags >= 128 {
        number_at(bytes, 8, 4)
    } else {
        0
    };
    Some(Frame { code, vendor, flags, start, end, used })
}

/// Reads the AVPs that fill some bytes; `None` where their lengths do not add
/// up.
pub fn read_avps(dict: &Dictionary, bytes: &[u8]) -> (r: Option<Vec<Avp>>)
    ensures
        match r {
            Some(v) => avps_of(dict@, bytes@) == Some(avps_text(v@)),
            None => avps_of(dict@, bytes@) is None,
        },
    decreases bytes@.len(),
{
    let mut out: Vec<Avp> = Vec::new();
    let mut at: usize = 0;
    proof {
        assert(bytes@.skip(0) =~= bytes@);
        assert forall|rest: Seq<AvpText>| #[trigger] (avps_text(out@) + rest) == rest by {
            assert(avps_text(out@) + rest =~= rest);
        }
    }
    while at < bytes.len()
        invariant
            at <= bytes@.len(),
            match avps_of(dict@, bytes@.skip(at as int)) {
                Some(rest) => avps_of(dict@, bytes@) == Some(avps_text(out@) + rest),
                None => avps_of(dict@, bytes@) is None,
            },
        decreases bytes@.len() - at,
    {
        let here = slice_subrange(bytes, at, bytes.len());
        assert(here@ =~= bytes@.skip(at as int));
        let frame = match read_frame(here) {
            Some(frame) => frame,
            None => {
                return None;
            },
        };
        let data = slice_subrange(here, frame.start, frame.end);
        let group = match dict.lookup_avp(frame.code, frame.vendor) {
            Some(def) => match def.data_type {
                AvpType::Grouped => true,
                _ => false,
            },
            None => false,
        };
        let value = if group {
            match read_avps(dict, data) {
                Some(children) => {
                    proof {
                        lemma_grouped(children);
                    }
                    AvpData::Grouped(children)
                },
                None => {
                    return None;
                },
            }
        } else {
            let mut raw: Vec<u8> = Vec::new();
            append_bytes(&mut raw, data);
            assert(raw@ =~= data@);
            AvpData::Raw(raw)
        };
        let avp = Avp { code: frame.code, vendor: frame.vendor, flags: frame.flags, value };
        let ghost before = out@;
        out.push(avp);
        proof {
            let next = bytes@.skip(at + frame.used);
            assert(here@.skip(frame.used as int) =~= next);
            assert(avps_text(out@) =~= avps_text(before).push(avp@));
            match avps_of(dict@, next) {
                Some(rest) => {
                    assert(avps_text(before) + (seq![avp@] + rest) =~= avps_text(out@) + rest);
                },
                None => {},
            }
        }
        at += frame.used;
    }
    proof {
        assert(bytes@.skip(at as int) =~= Seq::<u8>::empty());
        assert(avps_text(out@) + Seq::<AvpText>::empty() =~= avps_text(out@));
    }
    Some(out)
}

impl DiameterMsg {
    /// Reads a message from the wire.
    pub fn from_wire(dict: &Dictionary, wire: &[u8]) -> (r: Option<Self>)
        ensures
            match r {
                Some(m) => message_of(dict@, wire@) == Some(m@),
                None => message_of(dict@, wire@) is None,
            },
    {
        if wire.len() < 20 || wire[0] != 1 || number_at(wire, 1, 3) as usize != wire.len() {
            return None;
        }
        let payload = slice_subrange(wire, 20, wire.len());
        assert(payload@ =~= wire@.skip(20));
        match read_avps(dict, payload) {
            Some(avps) => Some(
                DiameterMsg {
                    flags: wire[4],
                    command_code: number_at(wire, 5, 3),
                    application_id: number_at(wire, 8, 4),
                    hop_by_hop: number_at(wire, 12, 4),
                    end_to_end: number_at(wire, 16, 4),
                    avps,
                },
            ),
            None => None,
        }
    }
}

/// Whether an AVP can be told from its bytes: it has a vendor only where its
/// flags announce one, and holds further AVPs exactly where the dictionary says
/// so.
pub open spec fn readable(dict: DictText, a: AvpText) -> bool
    decreases a,
{
    &&& a.flags >= 128 || a.vendor == 0
    &&& match a.value {
        DataText::Raw(_) => !is_group(dict, a.code, a.vendor),
        DataText::Grouped(v) => is_group(dict, a.code, a.vendor) && all_readable(dict, v, v.len()),
    }
}

/// Whether the first `n` AVPs of a list can.
pub open spec fn all_readable(dict: DictText, v: Seq<AvpText>, n: nat) -> bool
    decreases v, n,
{
    if n == 0 || n > v.len() {
        true
    } else {
        all_readable(dict, v, (n - 1) as nat) && readable(dict, v[n - 1])
    }
}

/// A list can be told from its bytes where each of its AVPs can.
pub proof fn lemma_all_readable(dict: DictText, v: Seq<AvpText>, n: nat)
    requires
        n <= v.len(),
    ensures
        all_readable(dict, v, n) == (forall|i: int| 0 <= i < n ==> readable(dict, #[trigger] v[i])),
    decreases n,
{
    if n > 0 {
        lemma_all_readable(dict, v, (n - 1) as nat);
    }
}

proof fn lemma_front_wire(v: Seq<AvpText>, n: nat)
    requires
        0 < n <= v.len(),
    ensures
        avps_wire(v, n) == avp_wire(v[0]) + avps_wire(v.subrange(1, v.len() as int), (n - 1) as nat),
    decreases n,
{
    let tail = v.subrange(1, v.len() as int);
    if n == 1 {
        assert(avps_wire(v, 0) =~= Seq::<u8>::empty());
        assert(avps_wire(tail, 0) =~= Seq::<u8>::empty());
        assert(avps_wire(v, 1) =~= avp_wire(v[0]) + avps_wire(tail, 0));
    } else {
        lemma_front_wire(v, (n - 1) as nat);
        assert(tail[n - 2] == v[n - 1]);
        assert(avps_wire(v, n) =~= avp_wire(v[0]) + avps_wire(tail, (n - 1) as nat));
    }
}

/// A frame is found again at the start of the bytes that begin with it.
proof fn lemma_frame_reads_back(code: u32, vendor: u32, flags: u8, data: Seq<u8>, rest: Seq<u8>)
    requires
        flags >= 128 || vendor == 0,
        12 + data.len() < 0x1000000,
    ensures
        ({
            let frame = avp_frame(code, vendor, flags, data);
            let s = frame + rest;
            &&& frame_of(s) matches Some(f)
            &&& f.code == code && f.vendor == vendor && f.flags == flags
            &&& 8 <= f.start <= f.end <= f.used <= s.len()
            &&& f.used == frame.len()
            &&& s.subrange(f.start, f.end) == data
            &&& s.skip(f.used) == rest
        }),
{
    let extra: nat = if flags >= 128 {
        4
    } else {
        0
    };
    let len = (8 + extra + data.len()) as nat;
    lemma_pow256();
    be_round_trip(code as nat, 4);
    be_round_trip(vendor as nat, 4);
    be_round_trip(len, 3);
    let frame = avp_frame(code, vendor, flags, data);
    let s = frame + rest;
    let vendor_field = if flags >= 128 {
        be_bytes(vendor as nat, 4)
    } else {
        Seq::empty()
    };
    assert(vendor_field.len() == extra);
    assert(s.take(4) =~= be_bytes(code as nat, 4));
    assert(s[4] == flags);
    assert(s.subrange(5, 8) =~= be_bytes(len, 3));
    if flags >= 128 {
        assert(s.subrange(8, 12) =~= be_bytes(vendor as nat, 4));
    }
    assert(padding(data.len()).len() == (4 - data.len() % 4) % 4);
    assert(len % 4 == data.len() % 4);
    assert(frame.len() == aligned(len as int));
    assert(s.subrange((8 + extra) as int, len as int) =~= data);
    assert(s.skip(frame.len() as int) =~= rest);
}

/// The bytes behind the header of an AVP.
spec fn data_wire(a: AvpText) -> Seq<u8> {
    match a.value {
        DataText::Raw(b) => b,
        DataText::Grouped(c) => avps_wire(c, c.len()),
    }
}

proof fn lemma_first_reads_back(dict: DictText, a: AvpText, rest: Seq<u8>, tail: Seq<AvpText>)
    requires
        readable(dict, a),
        12 + data_wire(a).len() < 0x1000000,
        a.value matches DataText::Grouped(c) ==> avps_of(dict, avps_wire(c, c.len())) == Some(c),
        avps_of(dict, rest) == Some(tail),
    ensures
        avps_of(dict, avp_wire(a) + rest) == Some(seq![a] + tail),
{
    let s = avp_wire(a) + rest;
    let data = data_wire(a);
    assert(avp_wire(a) == avp_frame(a.code, a.vendor, a.flags, data));
    lemma_frame_reads_back(a.code, a.vendor, a.flags, data, rest);
    let f = frame_of(s)->0;
    assert(s.subrange(f.start, f.end) == data);
    assert(s.skip(f.used) == rest);
    assert(s.len() > 0);
    let found = AvpText {
        code: f.code,
        vendor: f.vendor,
        flags: f.flags,
        value: match a.value {
            DataText::Raw(b) => DataText::Raw(data),
            DataText::Grouped(c) => DataText::Grouped(c),
        },
    };
    assert(found == a);
}

/// AVPs are read back from their bytes as they were, where the lengths fit
/// their fields and every AVP can be told from its bytes.
pub proof fn lemma_avps_read_back(dict: DictText, v: Seq<AvpText>)
    requires
        all_readable(dict, v, v.len()),
        avps_wire(v, v.len()).len() < 0x1000000 - 4,
    ensures
        avps_of(dict, avps_wire(v, v.len())) == Some(v),
    decreases v,
{
    if v.len() == 0 {
        assert(avps_wire(v, v.len()) =~= Seq::<u8>::empty());
        assert(v =~= Seq::<AvpText>::empty());
    } else {
        let tail = v.subrange(1, v.len() as int);
        let a = v[0];
        let data = data_wire(a);
        let rest = avps_wire(tail, tail.len());
        lemma_front_wire(v, v.len());
        assert(readable(dict, a) && all_readable(dict, tail, tail.len())) by {
            lemma_all_readable(dict, v, v.len());
            lemma_all_readable(dict, tail, tail.len());
            assert forall|i: int| 0 <= i < tail.len() implies readable(dict, #[trigger] tail[i]) by {
                assert(tail[i] == v[i + 1]);
            }
        }
        assert(avp_wire(a) == avp_frame(a.code, a.vendor, a.flags, data));
        avp_is_aligned(a.code, a.vendor, a.flags, data);
        match a.value {
            DataText::Raw(_) => {},
            DataText::Grouped(c) => {
                lemma_avps_read_back(dict, c);
            },
        }
        lemma_avps_read_back(dict, tail);
        lemma_first_reads_back(dict, a, rest, tail);
        assert(seq![a] + tail =~= v);
    }
}

/// What is written to the wire is read back as it was, where the lengths fit
/// their fields and every AVP can be told from its bytes.
pub proof fn wire_reads_back(dict: DictText, m: MsgText)
    requires
        all_readable(dict, m.avps, m.avps.len()),
        message_wire(m).len() < 0x1000000,
        m.command_code < 0x1000000,
    ensures
        message_of(dict, message_wire(m)) == Some(m),
{
    let payload = avps_wire(m.avps, m.avps.len());
    let s = message_wire(m);
    lemma_pow256();
    be_round_trip(m.command_code as nat, 3);
    be_round_trip(m.application_id as nat, 4);
    be_round_trip(m.hop_by_hop as nat, 4);
    be_round_trip(m.end_to_end as nat, 4);
    lemma_be_bytes_len((20 + payload.len()) as nat, 3);
    assert(s.len() == 20 + payload.len());
    be_round_trip((20 + payload.len()) as nat, 3);
    assert(s[0] == 1 && s[4] == m.flags);
    assert(s.subrange(1, 4) =~= be_bytes((20 + payload.len()) as nat, 3));
    assert(s.subrange(5, 8) =~= be_bytes(m.command_code as nat, 3));
    assert(s.subrange(8, 12) =~= be_bytes(m.application_id as nat, 4));
    assert(s.subrange(12, 16) =~= be_bytes(m.hop_by_hop as nat, 4));
    assert(s.subrange(16, 20) =~= be_bytes(m.end_to_end as nat, 4));
    assert(s.skip(20) =~= payload);
    lemma_avps_read_back(dict, m.avps);
}

} // verus!
