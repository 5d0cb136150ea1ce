//! The Diameter wire format (RFC 6733) and the AVP tree.

use crate::bytes::{be_bytes, be_value, from_be, lemma_be_bytes_len, to_be};
use crate::text::{opt_text, read_utf8, text_from_utf8_lossy};
use vstd::prelude::*;
use vstd::string::*;
use vstd::utf8::encode_utf8;

verus! {

/// The vendor of the 3GPP AVPs.
pub const VENDOR_3GPP: u32 = 10415;

pub const FLAG_REQUEST: u8 = 0x80;

pub const FLAG_PROXIABLE: u8 = 0x40;

pub const FLAG_ERROR: u8 = 0x20;

/// The flags of an AVP that a receiver has to understand.
pub open spec fn avp_flags(vendor: u32) -> u8 {
    if vendor != 0 {
        0xC0
    } else {
        0x40
    }
}

/// As many zero bytes as it takes to a multiple of four.
pub open spec fn padding(len: nat) -> Seq<u8> {
    Seq::new(((4 - len % 4) % 4) as nat, |i: int| 0u8)
}

/// An AVP on the wire: code, flags, length, vendor where the flags announce
/// one, data, padding.
pub open spec fn avp_frame(code: u32, vendor: u32, flags: u8, data: Seq<u8>) -> Seq<u8> {
    let vendor_field = if flags >= 128 {
        be_bytes(vendor as nat, 4)
    } else {
        Seq::empty()
    };
    be_bytes(code as nat, 4) + seq![flags] + be_bytes(8 + vendor_field.len() + data.len(), 3)
        + vendor_field + data + padding(data.len())
}

/// An AVP with the usual flags.
pub open spec fn avp_of(code: u32, vendor: u32, data: Seq<u8>) -> Seq<u8> {
    avp_frame(code, vendor, avp_flags(vendor), data)
}

/// A message on the wire: version, length, flags, command, application, the
/// two identifiers, AVPs.
pub open spec fn message_frame(
    flags: u8,
    command: u32,
    application: u32,
    hop_by_hop: u32,
    end_to_end: u32,
    payload: Seq<u8>,
) -> Seq<u8> {
    seq![1u8] + be_bytes(20 + payload.len(), 3) + seq![flags] + be_bytes(command as nat, 3)
        + be_bytes(application as nat, 4) + be_bytes(hop_by_hop as nat, 4) + be_bytes(
        end_to_end as nat,
        4,
    ) + payload
}

/// Every AVP takes a multiple of four bytes, at least eight and its data.
pub proof fn avp_is_aligned(code: u32, vendor: u32, flags: u8, data: Seq<u8>)
    ensures
        avp_frame(code, vendor, flags, data).len() % 4 == 0,
        avp_frame(code, vendor, flags, data).len() >= 8 + data.len(),
{
    lemma_be_bytes_len(code as nat, 4);
    lemma_be_bytes_len(vendor as nat, 4);
    let extra: nat = if flags >= 128 {
        4
    } else {
        0
    };
    lemma_be_bytes_len((8 + extra + data.len()) as nat, 3);
}

/// The data of an AVP stands in its frame as it is.
pub proof fn avp_carries_its_data(code: u32, vendor: u32, flags: u8, data: Seq<u8>)
    ensures
        ({
            let start: int = if flags >= 128 {
                12
            } else {
                8
            };
            let frame = avp_frame(code, vendor, flags, data);
            &&& start + data.len() <= frame.len()
            &&& frame.subrange(start, start + data.len()) == data
            &&& frame.take(4) == be_bytes(code as nat, 4)
        }),
{
    lemma_be_bytes_len(code as nat, 4);
    lemma_be_bytes_len(vendor as nat, 4);
    let extra: nat = if flags >= 128 {
        4
    } else {
        0
    };
    lemma_be_bytes_len((8 + extra + data.len()) as nat, 3);
    let start = 8 + extra;
    let frame = avp_frame(code, vendor, flags, data);
    assert(frame.subrange(start as int, (start + data.len()) as int) =~= data);
    assert(frame.take(4) =~= be_bytes(code as nat, 4));
}

proof fn lemma_length_field(n: nat, m: nat)
    requires
        n % 0x1000000 == m % 0x1000000,
    ensures
        be_bytes(n, 3) == be_bytes(m, 3),
{
    reveal_with_fuel(be_bytes, 4);
    assert(n % 256 == m % 256);
    assert((n / 256) % 256 == (m / 256) % 256);
    assert((n / 256 / 256) % 256 == (m / 256 / 256) % 256);
    assert(be_bytes(n, 3) =~= be_bytes(m, 3));
}

/// The three-byte length field for `len` bytes behind a header of `header`.
fn length_field(header: u64, len: usize) -> (r: Vec<u8>)
    requires
        header <= 32,
    ensures
        r@ == be_bytes((header + len) as nat, 3),
{
    let short: u64 = (len % 0x1000000) as u64;
    proof {
        lemma_length_field((header + short) as nat, (header + len) as nat);
    }
    to_be(header + short, 3)
}

pub fn append_bytes(out: &mut Vec<u8>, more: &[u8])
    ensures
        final(out)@ == old(out)@ + more@,
{
    out.extend_from_slice(more);
    assert(out@ =~= old(out)@ + more@);
}

/// Writes an AVP.
pub fn encode_avp(code: u32, vendor: u32, flags: u8, data: &[u8]) -> (r: Vec<u8>)
    ensures
        r@ == avp_frame(code, vendor, flags, data@),
{
    let mut out = to_be(code as u64, 4);
    out.push(flags);
    proof {
        lemma_be_bytes_len(vendor as nat, 4);
    }
    if flags >= 128 {
        append_bytes(&mut out, length_field(12, data.len()).as_slice());
        append_bytes(&mut out, to_be(vendor as u64, 4).as_slice());
    } else {
        append_bytes(&mut out, length_field(8, data.len()).as_slice());
    }
    append_bytes(&mut out, data);
    let ghost body = out@;
    let pad: usize = (4 - data.len() % 4) % 4;
    let mut i: usize = 0;
    while i < pad
        invariant
            i <= pad,
            out@ == body + Seq::new(i as nat, |k: int| 0u8),
        decreases pad - i,
    {
        out.push(0);
        assert(out@ =~= body + Seq::new((i + 1) as nat, |k: int| 0u8));
        i += 1;
    }
    assert(out@ =~= avp_frame(code, vendor, flags, data@));
    out
}

/// The usual flags of an AVP.
pub fn usual_flags(vendor: u32) -> (r: u8)
    ensures
        r == avp_flags(vendor),
{
    if vendor != 0 {
        0xC0
    } else {
        0x40
    }
}

/// Writes an AVP of bytes with the usual flags.
pub fn encode_octet(code: u32, vendor: u32, data: &[u8]) -> (r: Vec<u8>)
    ensures
        r@ == avp_of(code, vendor, data@),
{
    encode_avp(code, vendor, usual_flags(vendor), data)
}

/// Writes an AVP of text with the usual flags.
pub fn encode_text(code: u32, vendor: u32, text: &str) -> (r: Vec<u8>)
    ensures
        r@ == avp_of(code, vendor, encode_utf8(text@)),
{
    encode_octet(code, vendor, text.as_bytes())
}

/// Writes an AVP of a 32-bit number with the usual flags.
pub fn encode_u32(code: u32, vendor: u32, value: u32) -> (r: Vec<u8>)
    ensures
        r@ == avp_of(code, vendor, be_bytes(value as nat, 4)),
{
    encode_octet(code, vendor, to_be(value as u64, 4).as_slice())
}

/// Writes a message.
pub fn encode_message(
    flags: u8,
    command: u32,
    application: u32,
    hop_by_hop: u32,
    end_to_end: u32,
    payload: &[u8],
) -> (r: Vec<u8>)
    ensures
        r@ == message_frame(flags, command, application, hop_by_hop, end_to_end, payload@),
{
    let mut out: Vec<u8> = Vec::new();
    out.push(1);
    append_bytes(&mut out, length_field(20, payload.len()).as_slice());
    out.push(flags);
    append_bytes(&mut out, to_be(command as u64, 3).as_slice());
    append_bytes(&mut out, to_be(application as u64, 4).as_slice());
    append_bytes(&mut out, to_be(hop_by_hop as u64, 4).as_slice());
    append_bytes(&mut out, to_be(end_to_end as u64, 4).as_slice());
    append_bytes(&mut out, payload);
    assert(out@ =~= message_frame(flags, command, application, hop_by_hop, end_to_end, payload@));
    out
}

/// The value of an AVP: bytes, or further AVPs.
pub enum AvpData {
    Raw(Vec<u8>),
    Grouped(Vec<Avp>),
}

/// An AVP of a message tree.
pub struct Avp {
    pub code: u32,
    pub vendor: u32,
    pub flags: u8,
    pub value: AvpData,
}

/// The same as mathematical data.
pub enum DataText {
    Raw(Seq<u8>),
    Grouped(Seq<AvpText>),
}

pub struct AvpText {
    pub code: u32,
    pub vendor: u32,
    pub flags: u8,
    pub value: DataText,
}

pub open spec fn avp_text(a: Avp) -> AvpText
    decreases a,
{
    AvpText {
        code: a.code,
        vendor: a.vendor,
        flags: a.flags,
        value: match a.value {
            AvpData::Raw(b) => DataText::Raw(b@),
            AvpData::Grouped(v) => DataText::Grouped(avp_list(v, v@.len())),
        },
    }
}

/// The first `n` AVPs of a list.
pub open spec fn avp_list(v: Vec<Avp>, n: nat) -> Seq<AvpText>
    decreases v, n,
{
    if n == 0 || n > v@.len() {
        Seq::empty()
    } else {
        avp_list(v, (n - 1) as nat).push(avp_text(v[n - 1]))
    }
}

impl View for Avp {
    type V = AvpText;

    open spec fn view(&self) -> AvpText {
        avp_text(*self)
    }
}

/// The AVPs that a list holds.
pub open spec fn avps_text(v: Seq<Avp>) -> Seq<AvpText> {
    Seq::new(v.len(), |i: int| v[i]@)
}

proof fn lemma_avp_list(v: Vec<Avp>, n: nat)
    requires
        n <= v@.len(),
    ensures
        avp_list(v, n) == avps_text(v@).take(n as int),
    decreases n,
{
    if n > 0 {
        lemma_avp_list(v, (n - 1) as nat);
    }
    assert(avp_list(v, n) =~= avps_text(v@).take(n as int));
}

pub proof fn lemma_grouped(v: Vec<Avp>)
    ensures
        avp_list(v, v@.len()) == avps_text(v@),
{
    lemma_avp_list(v, v@.len());
    assert(avps_text(v@).take(v@.len() as int) =~= avps_text(v@));
}

/// An AVP of the tree on the wire.
pub open spec fn avp_wire(a: AvpText) -> Seq<u8>
    decreases a,
{
    avp_frame(
        a.code,
        a.vendor,
        a.flags,
        match a.value {
            DataText::Raw(b) => b,
            DataText::Grouped(v) => avps_wire(v, v.len()),
        },
    )
}

/// The first `n` AVPs of a list on the wire.
pub open spec fn avps_wire(v: Seq<AvpText>, n: nat) -> Seq<u8>
    decreases v, n,
{
    if n == 0 || n > v.len() {
        Seq::empty()
    } else {
        avps_wire(v, (n - 1) as nat) + avp_wire(v[n - 1])
    }
}

/// A leaf AVP with the usual flags.
pub open spec fn raw_avp(code: u32, vendor: u32, data: Seq<u8>) -> AvpText {
    AvpText { code, vendor, flags: avp_flags(vendor), value: DataText::Raw(data) }
}

/// A grouped AVP with the usual flags.
pub open spec fn grouped_avp(code: u32, vendor: u32, children: Seq<AvpText>) -> AvpText {
    AvpText { code, vendor, flags: avp_flags(vendor), value: DataText::Grouped(children) }
}

/// The bytes of a leaf AVP.
pub open spec fn raw_bytes_of(a: AvpText) -> Option<Seq<u8>> {
    match a.value {
        DataText::Raw(b) => Some(b),
        DataText::Grouped(_) => None,
    }
}

/// The number in the first four bytes of a leaf AVP.
pub open spec fn u32_of(a: AvpText) -> Option<u32> {
    match a.value {
        DataText::Raw(b) => if b.len() >= 4 {
            Some(be_value(b.take(4)) as u32)
        } else {
            None
        },
        DataText::Grouped(_) => None,
    }
}

impl Avp {
    /// A leaf AVP with the usual flags.
    pub fn raw(code: u32, vendor: u32, data: Vec<u8>) -> (r: Self)
        ensures
            r@ == raw_avp(code, vendor, data@),
    {
        Avp { code, vendor, flags: usual_flags(vendor), value: AvpData::Raw(data) }
    }

    /// A leaf AVP of text with the usual flags.
    pub fn utf8(code: u32, vendor: u32, text: &str) -> (r: Self)
        ensures
            r@ == raw_avp(code, vendor, encode_utf8(text@)),
    {
        Avp::raw(code, vendor, text.as_bytes_vec())
    }

    /// A grouped AVP with the usual flags.
    pub fn grouped(code: u32, vendor: u32, children: Vec<Avp>) -> (r: Self)
        ensures
            r@ == grouped_avp(code, vendor, avps_text(children@)),
    {
        proof {
            lemma_grouped(children);
        }
        Avp { code, vendor, flags: usual_flags(vendor), value: AvpData::Grouped(children) }
    }

    /// The bytes of a leaf AVP.
    pub fn raw_bytes(&self) -> (r: Option<&[u8]>)
        ensures
            match r {
                Some(b) => raw_bytes_of(self@) == Some(b@),
                None => raw_bytes_of(self@) is None,
            },
    {
        match &self.value {
            AvpData::Raw(b) => Some(b.as_slice()),
            AvpData::Grouped(_) => None,
        }
    }

    /// The number in the first four bytes of a leaf AVP.
    pub fn as_u32(&self) -> (r: Option<u32>)
        ensures
            r == u32_of(self@),
    {
        match &self.value {
            AvpData::Raw(b) => if b.len() >= 4 {
                Some(first_u32(b))
            } else {
                None
            },
            AvpData::Grouped(_) => None,
        }
    }

    pub fn copy(&self) -> (r: Self)
        ensures
            r@ == self@,
        decreases self,
    {
        match &self.value {
            AvpData::Raw(b) => {
                let mut data: Vec<u8> = Vec::new();
                append_bytes(&mut data, b.as_slice());
                assert(data@ =~= b@);
                Avp { value: AvpData::Raw(data), ..*self }
            },
            AvpData::Grouped(v) => {
                let children = copy_avps(v);
                proof {
                    lemma_grouped(*v);
                    lemma_grouped(children);
                }
                Avp { value: AvpData::Grouped(children), ..*self }
            },
        }
    }

    /// The AVP on the wire.
    pub fn to_wire(&self) -> (r: Vec<u8>)
        ensures
            r@ == avp_wire(self@),
        decreases self,
    {
        match &self.value {
            AvpData::Raw(b) => encode_avp(self.code, self.vendor, self.flags, b.as_slice()),
            AvpData::Grouped(v) => {
                let data = avps_to_wire(v);
                proof {
                    lemma_grouped(*v);
                }
                encode_avp(self.code, self.vendor, self.flags, data.as_slice())
            },
        }
    }
}

pub fn first_u32(b: &Vec<u8>) -> (r: u32)
    requires
        b@.len() >= 4,
    ensures
        r == be_value(b@.take(4)),
{
    proof {
        crate::bytes::lemma_be_value_bound(b@.take(4));
        crate::bytes::lemma_pow256();
    }
    from_be(b.as_slice(), 4) as u32
}

pub fn copy_avps(v: &Vec<Avp>) -> (r: Vec<Avp>)
    ensures
        avps_text(r@) == avps_text(v@),
    decreases v,
{
    let mut out: Vec<Avp> = Vec::new();
    let mut i: usize = 0;
    while i < v.len()
        invariant
            i <= v@.len(),
            avps_text(out@) == avps_text(v@).take(i as int),
        decreases v@.len() - i,
    {
        let ghost before = out@;
        out.push(v[i].copy());
        assert(avps_text(out@) =~= avps_text(before).push(v@[i as int]@));
        assert(avps_text(out@) =~= avps_text(v@).take(i + 1));
        i += 1;
    }
    assert(avps_text(v@).take(v@.len() as int) =~= avps_text(v@));
    out
}

/// A list of AVPs on the wire.
pub fn avps_to_wire(v: &Vec<Avp>) -> (r: Vec<u8>)
    ensures
        r@ == avps_wire(avps_text(v@), v@.len()),
    decreases v,
{
    let mut out: Vec<u8> = Vec::new();
    let mut i: usize = 0;
    while i < v.len()
        invariant
            i <= v@.len(),
            out@ == avps_wire(avps_text(v@), i as nat),
        decreases v@.len() - i,
    {
        let bytes = v[i].to_wire();
        append_bytes(&mut out, bytes.as_slice());
        i += 1;
    }
    out
}

/// A message as its header fields and its AVPs.
pub struct DiameterMsg {
    pub flags: u8,
    pub command_code: u32,
    pub application_id: u32,
    pub hop_by_hop: u32,
    pub end_to_end: u32,
    pub avps: Vec<Avp>,
}

/// What a message holds.
pub struct MsgText {
    pub flags: u8,
    pub command_code: u32,
    pub application_id: u32,
    pub hop_by_hop: u32,
    pub end_to_end: u32,
    pub avps: Seq<AvpText>,
}

impl View for DiameterMsg {
    type V = MsgText;

    open spec fn view(&self) -> MsgText {
        MsgText {
            flags: self.flags,
            command_code: self.command_code,
            application_id: self.application_id,
            hop_by_hop: self.hop_by_hop,
            end_to_end: self.end_to_end,
            avps: avps_text(self.avps@),
        }
    }
}

/// The first AVP with a code and a vendor.
pub open spec fn find_avp(v: Seq<AvpText>, code: u32, vendor: u32) -> Option<AvpText>
    decreases v.len(),
{
    if v.len() == 0 {
        None
    } else if v[0].code == code && v[0].vendor == vendor {
        Some(v[0])
    } else {
        find_avp(v.skip(1), code, vendor)
    }
}

/// The AVPs without those of a code and a vendor, in their order.
pub open spec fn without_avp(v: Seq<AvpText>, code: u32, vendor: u32) -> Seq<AvpText>
    decreases v.len(),
{
    if v.len() == 0 {
        v
    } else if v.last().code == code && v.last().vendor == vendor {
        without_avp(v.drop_last(), code, vendor)
    } else {
        without_avp(v.drop_last(), code, vendor).push(v.last())
    }
}

/// The AVPs with a single one of its code and vendor, at the end.
pub open spec fn with_avp(v: Seq<AvpText>, avp: AvpText) -> Seq<AvpText> {
    without_avp(v, avp.code, avp.vendor).push(avp)
}

/// The text of the first AVP with a code and no vendor.
pub open spec fn text_avp(v: Seq<AvpText>, code: u32) -> Option<Seq<char>> {
    match find_avp(v, code, 0) {
        Some(avp) => match raw_bytes_of(avp) {
            Some(b) => Some(read_utf8(b)),
            None => None,
        },
        None => None,
    }
}

pub open spec fn is_request_flags(flags: u8) -> bool {
    flags >= 128
}

pub open spec fn is_proxiable_flags(flags: u8) -> bool {
    (flags as int / 64) % 2 == 1
}

pub open spec fn is_error_flags(flags: u8) -> bool {
    (flags as int / 32) % 2 == 1
}

/// Where an AVP is appended, it is found if none of its kind stood before it.
pub proof fn lemma_find_push(v: Seq<AvpText>, avp: AvpText, code: u32, vendor: u32)
    ensures
        find_avp(v.push(avp), code, vendor) == match find_avp(v, code, vendor) {
            Some(found) => Some(found),
            None => if avp.code == code && avp.vendor == vendor {
                Some(avp)
            } else {
                None
            },
        },
    decreases v.len(),
{
    if v.len() == 0 {
        assert(v.push(avp).skip(1) =~= Seq::<AvpText>::empty());
        reveal_with_fuel(find_avp, 2);
    } else {
        assert(v.push(avp).skip(1) =~= v.skip(1).push(avp));
        lemma_find_push(v.skip(1), avp, code, vendor);
    }
}

/// A removed AVP is gone, and every other one is still found.
pub proof fn removed_avp_is_gone(v: Seq<AvpText>, code: u32, vendor: u32, other: u32, other_vendor: u32)
    ensures
        find_avp(without_avp(v, code, vendor), code, vendor) is None,
        (other != code || other_vendor != vendor) ==> find_avp(
            without_avp(v, code, vendor),
            other,
            other_vendor,
        ) == find_avp(v, other, other_vendor),
        without_avp(v, code, vendor).len() <= v.len(),
    decreases v.len(),
{
    if v.len() > 0 {
        let init = v.drop_last();
        removed_avp_is_gone(init, code, vendor, other, other_vendor);
        assert(v =~= init.push(v.last()));
        lemma_find_push(init, v.last(), other, other_vendor);
        lemma_find_push(without_avp(init, code, vendor), v.last(), code, vendor);
        lemma_find_push(without_avp(init, code, vendor), v.last(), other, other_vendor);
    }
}

/// An AVP that was set is the one that a lookup finds, and setting it leaves
/// the others.
pub proof fn set_avp_is_found(v: Seq<AvpText>, avp: AvpText, other: u32, other_vendor: u32)
    ensures
        find_avp(with_avp(v, avp), avp.code, avp.vendor) == Some(avp),
        (other != avp.code || other_vendor != avp.vendor) ==> find_avp(
            with_avp(v, avp),
            other,
            other_vendor,
        ) == find_avp(v, other, other_vendor),
{
    removed_avp_is_gone(v, avp.code, avp.vendor, other, other_vendor);
    let kept = without_avp(v, avp.code, avp.vendor);
    lemma_find_push(kept, avp, avp.code, avp.vendor);
    lemma_find_push(kept, avp, other, other_vendor);
}

impl DiameterMsg {
    pub fn is_request(&self) -> (r: bool)
        ensures
            r == is_request_flags(self.flags),
    {
        self.flags >= 128
    }

    pub fn is_proxiable(&self) -> (r: bool)
        ensures
            r == is_proxiable_flags(self.flags),
    {
        (self.flags / 64) % 2 == 1
    }

    pub fn is_error(&self) -> (r: bool)
        ensures
            r == is_error_flags(self.flags),
    {
        (self.flags / 32) % 2 == 1
    }

    /// The first AVP with a code and a vendor.
    pub fn find(&self, code: u32, vendor: u32) -> (r: Option<&Avp>)
        ensures
            match r {
                Some(avp) => find_avp(self@.avps, code, vendor) == Some(avp@),
                None => find_avp(self@.avps, code, vendor) is None,
            },
    {
        let ghost all = self@.avps;
        let mut i: usize = 0;
        assert(all.skip(0) =~= all);
        while i < self.avps.len()
            invariant
                i <= self.avps@.len(),
                all == avps_text(self.avps@),
                find_avp(all, code, vendor) == find_avp(all.skip(i as int), code, vendor),
            decreases self.avps@.len() - i,
        {
            if self.avps[i].code == code && self.avps[i].vendor == vendor {
                return Some(&self.avps[i]);
            }
            assert(all.skip(i as int).skip(1) =~= all.skip(i + 1));
            i += 1;
        }
        None
    }

    /// The text of the first AVP with a code and no vendor.
    pub fn get_str(&self, code: u32) -> (r: Option<String>)
        ensures
            opt_text(r) == text_avp(self@.avps, code),
    {
        match self.find(code, 0) {
            Some(avp) => match avp.raw_bytes() {
                Some(b) => Some(text_from_utf8_lossy(b)),
                None => None,
            },
            None => None,
        }
    }

    /// Removes the AVPs of a code and a vendor and says how many there were.
    pub fn remove(&mut self, code: u32, vendor: u32) -> (r: usize)
        ensures
            final(self)@ == (MsgText {
                avps: without_avp(old(self)@.avps, code, vendor),
                ..old(self)@
            }),
            r == old(self)@.avps.len() - without_avp(old(self)@.avps, code, vendor).len(),
    {
        let ghost all = self@.avps;
        let mut kept: Vec<Avp> = Vec::new();
        let mut removed: usize = 0;
        let mut i: usize = 0;
        assert(avps_text(kept@) =~= all.take(0));
        while i < self.avps.len()
            invariant
                i <= self.avps@.len(),
                self@ == old(self)@,
                all == avps_text(self.avps@),
                avps_text(kept@) == without_avp(all.take(i as int), code, vendor),
                removed + kept@.len() == i,
            decreases self.avps@.len() - i,
        {
            let ghost prefix = all.take(i + 1);
            assert(prefix.drop_last() =~= all.take(i as int));
            assert(prefix.last() == self.avps@[i as int]@);
            if self.avps[i].code == code && self.avps[i].vendor == vendor {
                removed += 1;
            } else {
                let ghost before = kept@;
                kept.push(self.avps[i].copy());
                assert(avps_text(kept@) =~= avps_text(before).push(prefix.last()));
            }
            i += 1;
        }
        assert(all.take(all.len() as int) =~= all);
        self.avps = kept;
        removed
    }

    /// Appends an AVP.
    pub fn push(&mut self, avp: Avp)
        ensures
            final(self)@ == (MsgText { avps: old(self)@.avps.push(avp@), ..old(self)@ }),
    {
        self.avps.push(avp);
        assert(avps_text(self.avps@) =~= old(self)@.avps.push(avp@));
    }

    /// Replaces the AVPs of a code and a vendor by one.
    pub fn set(&mut self, avp: Avp)
        ensures
            final(self)@ == (MsgText { avps: with_avp(old(self)@.avps, avp@), ..old(self)@ }),
    {
        let _ = self.remove(avp.code, avp.vendor);
        self.push(avp);
    }

    pub fn copy(&self) -> (r: Self)
        ensures
            r@ == self@,
    {
        DiameterMsg { avps: copy_avps(&self.avps), ..*self }
    }

    /// The message on the wire.
    pub fn to_wire(&self) -> (r: Vec<u8>)
        ensures
            r@ == message_wire(self@),
    {
        let payload = avps_to_wire(&self.avps);
        encode_message(
            self.flags,
            self.command_code,
            self.application_id,
            self.hop_by_hop,
            self.end_to_end,
            payload.as_slice(),
        )
    }
}

/// A message on the wire.
pub open spec fn message_wire(m: MsgText) -> Seq<u8> {
    message_frame(
        m.flags,
        m.command_code,
        m.application_id,
        m.hop_by_hop,
        m.end_to_end,
        avps_wire(m.avps, m.avps.len()),
    )
}

} // verus!
