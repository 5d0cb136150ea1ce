//! Laws of the octets of a Diameter message.

use crate::bytes::{be_bytes, be_round_trip, be_value, lemma_pow256};
use crate::diameter::codec::{
    avp_of, avp_wire, avps_wire, encode_avp, encode_message, grouped_avp, message_wire, raw_avp,
    usual_flags, AvpText, DataText, DiameterMsg, MsgText,
};
use crate::diameter::decode::{
    all_readable, avps_of, is_group, lemma_all_readable, lemma_avps_read_back, message_of,
    readable, wire_reads_back,
};
use crate::diameter::dictionary::{
    command_code, def_by_key, AvpDef, AvpType, DefText, DictText, Dictionary,
};
use crate::diameter::generic::{
    encode_kwarg_avp, is_reserved, kwarg_wire, kwargs_wire, request_head, send_request,
};
use crate::diameter::rx::{PeerContext, WireRequest};
use crate::error::ErrorText;
use crate::laws::rx::{lemma_wire_concat, lemma_wire_one};
use crate::net::{ip_of, IpAddr};
use crate::pyvalue::{as_bytes, as_int, as_u32, entries_text, PyText, PyValue};
use vstd::prelude::*;
use vstd::string::*;
use vstd::utf8::encode_utf8;

verus! {

/// The number that three octets hold, the first being the highest.
pub open spec fn three_octets(s: Seq<u8>, at: int) -> int {
    s[at] * 0x10000 + s[at + 1] * 0x100 + s[at + 2]
}

/// The number that four octets hold, the first being the highest.
pub open spec fn four_octets(s: Seq<u8>, at: int) -> int {
    s[at] * 0x1000000 + s[at + 1] * 0x10000 + s[at + 2] * 0x100 + s[at + 3]
}

proof fn lemma_three(n: nat)
    requires
        n < 0x1000000,
    ensures
        be_bytes(n, 3).len() == 3,
        three_octets(be_bytes(n, 3), 0) == n,
{
    lemma_pow256();
    be_round_trip(n, 3);
    let s = be_bytes(n, 3);
    reveal_with_fuel(be_value, 4);
    let a = s.drop_last();
    let b = a.drop_last();
    assert(a.len() == 2 && b.len() == 1 && b.drop_last().len() == 0);
    assert(s.last() == s[2] && a.last() == s[1] && b.last() == s[0]);
    assert(be_value(b) == s[0]);
    assert(be_value(a) == s[0] * 256 + s[1]);
    assert(be_value(s) == (s[0] * 256 + s[1]) * 256 + s[2]);
}

/// Four octets hold the number that they are read as.
pub proof fn lemma_four_value(s: Seq<u8>)
    requires
        s.len() == 4,
    ensures
        be_value(s) == four_octets(s, 0),
{
    reveal_with_fuel(be_value, 5);
    let a = s.drop_last();
    let b = a.drop_last();
    let c = b.drop_last();
    assert(a.len() == 3 && b.len() == 2 && c.len() == 1 && c.drop_last().len() == 0);
    assert(s.last() == s[3] && a.last() == s[2] && b.last() == s[1] && c.last() == s[0]);
    assert(be_value(c) == s[0]);
    assert(be_value(b) == s[0] * 256 + s[1]);
    assert(be_value(a) == (s[0] * 256 + s[1]) * 256 + s[2]);
    assert(be_value(s) == ((s[0] * 256 + s[1]) * 256 + s[2]) * 256 + s[3]);
}

/// A number is written as the four octets that hold it.
pub proof fn lemma_four(n: u32)
    ensures
        be_bytes(n as nat, 4).len() == 4,
        four_octets(be_bytes(n as nat, 4), 0) == n,
{
    lemma_pow256();
    be_round_trip(n as nat, 4);
    lemma_four_value(be_bytes(n as nat, 4));
}

/// An AVP on the wire is its code in four octets, its flags in one, its length
/// without padding in three, its vendor in four where the flags say that it has
/// one, its data, and zeroes up to a whole number of words.
pub proof fn avp_has_its_layout(code: u32, vendor: u32, flags: u8, data: &[u8], wire: Vec<u8>)
    requires
        call_ensures(encode_avp, (code, vendor, flags, data), wire),
        data@.len() + 12 < 0x1000000,
    ensures
        ({
            let start: int = if flags >= 128 {
                12
            } else {
                8
            };
            let end = start + data@.len();
            &&& four_octets(wire@, 0) == code
            &&& wire@[4] == flags
            &&& three_octets(wire@, 5) == end
            &&& flags >= 128 ==> four_octets(wire@, 8) == vendor
            &&& wire@.len() % 4 == 0
            &&& end <= wire@.len() < end + 4
            &&& wire@.subrange(start, end) == data@
            &&& forall|i: int| end <= i < wire@.len() ==> #[trigger] wire@[i] == 0
        }),
{
    let extra: nat = if flags >= 128 {
        4
    } else {
        0
    };
    let end = (8 + extra + data@.len()) as nat;
    lemma_four(code);
    lemma_four(vendor);
    lemma_three(end);
    let start = (8 + extra) as int;
    let vendor_field = if flags >= 128 {
        be_bytes(vendor as nat, 4)
    } else {
        Seq::empty()
    };
    let head = be_bytes(code as nat, 4) + seq![flags] + be_bytes(end, 3) + vendor_field;
    assert(head.len() == start);
    let w = wire@;
    assert(w == head + data@ + crate::diameter::codec::padding(data@.len()));
    assert forall|i: int| 0 <= i < 4 implies w[i] == be_bytes(code as nat, 4)[i] by {}
    assert forall|i: int| 0 <= i < 3 implies w[5 + i] == be_bytes(end, 3)[i] by {}
    assert(w[5] == be_bytes(end, 3)[0] && w[6] == be_bytes(end, 3)[1] && w[7] == be_bytes(
        end,
        3,
    )[2]);
    assert(w[0] == be_bytes(code as nat, 4)[0] && w[1] == be_bytes(code as nat, 4)[1] && w[2]
        == be_bytes(code as nat, 4)[2] && w[3] == be_bytes(code as nat, 4)[3]);
    if flags >= 128 {
        assert(w[8] == vendor_field[0] && w[9] == vendor_field[1] && w[10] == vendor_field[2]
            && w[11] == vendor_field[3]);
    }
    assert(w.subrange(start, end as int) =~= data@);
    assert(crate::diameter::codec::padding(data@.len()).len() == (4 - data@.len() % 4) % 4);
    assert forall|i: int| end <= i < w.len() implies #[trigger] w[i] == 0 by {
        assert(w[i] == crate::diameter::codec::padding(data@.len())[i - end]);
    }
}

/// A message on the wire is its version, its whole length, its flags, its
/// command, its application and its two identifiers, in that order, and behind
/// these twenty octets its AVPs.
pub proof fn message_has_its_layout(
    flags: u8,
    command: u32,
    application: u32,
    hop_by_hop: u32,
    end_to_end: u32,
    payload: &[u8],
    wire: Vec<u8>,
)
    requires
        call_ensures(
            encode_message,
            (flags, command, application, hop_by_hop, end_to_end, payload),
            wire,
        ),
        payload@.len() + 20 < 0x1000000,
        command < 0x1000000,
    ensures
        wire@.len() == 20 + payload@.len(),
        wire@[0] == 1,
        three_octets(wire@, 1) == wire@.len(),
        wire@[4] == flags,
        three_octets(wire@, 5) == command,
        four_octets(wire@, 8) == application,
        four_octets(wire@, 12) == hop_by_hop,
        four_octets(wire@, 16) == end_to_end,
        wire@.skip(20) == payload@,
{
    let len = (20 + payload@.len()) as nat;
    lemma_three(len);
    lemma_three(command as nat);
    lemma_four(application);
    lemma_four(hop_by_hop);
    lemma_four(end_to_end);
    let w = wire@;
    let l = be_bytes(len, 3);
    let c = be_bytes(command as nat, 3);
    let a = be_bytes(application as nat, 4);
    let h = be_bytes(hop_by_hop as nat, 4);
    let e = be_bytes(end_to_end as nat, 4);
    assert(w[1] == l[0] && w[2] == l[1] && w[3] == l[2]);
    assert(w[5] == c[0] && w[6] == c[1] && w[7] == c[2]);
    assert(w[8] == a[0] && w[9] == a[1] && w[10] == a[2] && w[11] == a[3]);
    assert(w[12] == h[0] && w[13] == h[1] && w[14] == h[2] && w[15] == h[3]);
    assert(w[16] == e[0] && w[17] == e[1] && w[18] == e[2] && w[19] == e[3]);
    assert(w.skip(20) =~= payload@);
}

/// An AVP of a vendor is mandatory and says that it has a vendor; one of the base
/// protocol is mandatory and says that it has none.
pub proof fn usual_flags_tell_the_vendor(vendor: u32, flags: u8)
    requires
        call_ensures(usual_flags, (vendor,), flags),
    ensures
        (flags >= 128) == (vendor != 0),
        (flags as int / 64) % 2 == 1,
        flags as int % 64 == 0,
{
}

/// A message is a request by its highest flag, proxiable by the next and an
/// error by the one after.
pub proof fn flags_are_read_by_their_place(
    msg: DiameterMsg,
    request: bool,
    proxiable: bool,
    error: bool,
)
    requires
        call_ensures(DiameterMsg::is_request, (&msg,), request),
        call_ensures(DiameterMsg::is_proxiable, (&msg,), proxiable),
        call_ensures(DiameterMsg::is_error, (&msg,), error),
    ensures
        request == ((msg.flags as int / 0x80) % 2 == 1),
        proxiable == ((msg.flags as int / 0x40) % 2 == 1),
        error == ((msg.flags as int / 0x20) % 2 == 1),
{
}

/// The AVP that a script's keyword stands for: the octets of its value under the
/// definition's code, with the 3GPP vendor where the definition has one.
spec fn kwarg_avp(def: DefText, data: Seq<u8>) -> AvpText {
    raw_avp(
        def.code,
        if def.vendor_id != 0 {
            10415
        } else {
            0
        },
        data,
    )
}

/// Whether octets are those of a script's value under a definition: text as
/// UTF-8, octets as they are, numbers highest octet first, an address behind the
/// number of its family.
pub open spec fn octets_of_value(def: DefText, value: PyText, data: Seq<u8>) -> bool {
    match def.data_type {
        AvpType::UTF8String | AvpType::DiameterIdentity => value matches PyText::Text(s) && data
            == encode_utf8(s),
        AvpType::OctetString => match value {
            PyText::Text(s) => data == encode_utf8(s),
            _ => as_bytes(value) == Ok::<Seq<u8>, ErrorText>(data),
        },
        AvpType::Unsigned32 | AvpType::Enumerated => data.len() == 4 && as_int(
            value,
            0,
            u32::MAX as int,
        ) == Ok::<int, ErrorText>(four_octets(data, 0)),
        AvpType::Address => value matches PyText::Text(s) && (ip_of(s) matches Some(IpAddr::V4(ip))
            && data.len() == 6 && data[0] == 0 && data[1] == 1 && four_octets(data, 2) == ip),
        AvpType::Grouped => value is Nothing && data.len() == 0,
        AvpType::Time => false,
        _ => true,
    }
}

/// The octets of a script's value under a definition.
spec fn kwarg_data(def: DefText, value: PyText) -> Seq<u8> {
    match def.data_type {
        AvpType::UTF8String | AvpType::DiameterIdentity => encode_utf8(value->Text_0),
        AvpType::OctetString => match as_bytes(value) {
            Ok(b) => b,
            Err(_) => encode_utf8(value->Text_0),
        },
        AvpType::Unsigned32 | AvpType::Enumerated => be_bytes(as_u32(value)->Ok_0 as nat, 4),
        AvpType::Unsigned64 => be_bytes(as_int(value, 0, u64::MAX as int)->Ok_0 as nat, 8),
        AvpType::Integer32 => be_bytes(
            crate::bytes::twos32(as_int(value, i32::MIN as int, i32::MAX as int)->Ok_0),
            4,
        ),
        AvpType::Address => seq![0u8, 1u8] + be_bytes(ip_of(value->Text_0)->0->V4_0 as nat, 4),
        _ => Seq::empty(),
    }
}

proof fn lemma_kwarg(def: DefText, value: PyText)
    requires
        kwarg_wire(def, value) is Ok,
    ensures
        kwarg_wire(def, value) == Ok::<Seq<u8>, ErrorText>(
            avp_wire(kwarg_avp(def, kwarg_data(def, value))),
        ),
        octets_of_value(def, value, kwarg_data(def, value)),
{
    let data = kwarg_data(def, value);
    match def.data_type {
        AvpType::Unsigned32 | AvpType::Enumerated => {
            lemma_four(as_u32(value)->Ok_0 as u32);
        },
        AvpType::Address => {
            let ip = ip_of(value->Text_0)->0->V4_0;
            lemma_four(ip);
            let b = be_bytes(ip as nat, 4);
            assert(data[2] == b[0] && data[3] == b[1] && data[4] == b[2] && data[5] == b[3]);
        },
        _ => {},
    }
    assert(avp_wire(kwarg_avp(def, data)) == avp_of(
        def.code,
        crate::diameter::generic::wire_vendor(def),
        data,
    ));
}

/// A keyword argument is written as one AVP: under the definition's code, with
/// the 3GPP vendor where the definition has one, and with the octets of its
/// value.
pub proof fn keyword_becomes_its_avp(
    dict: DictText,
    def: AvpDef,
    value: PyValue,
    wire: Vec<u8>,
)
    requires
        call_ensures(encode_kwarg_avp, (&def, &value), Ok(wire)),
        !is_group(
            dict,
            def.code,
            if def.vendor_id != 0 {
                10415
            } else {
                0
            },
        ),
        wire@.len() < 0xFFFFFC,
    ensures
        avps_of(dict, wire@) matches Some(read) && {
            &&& read.len() == 1
            &&& read[0].code == def.code
            &&& read[0].vendor == if def.vendor_id != 0 {
                10415u32
            } else {
                0u32
            }
            &&& read[0].value matches DataText::Raw(data)
            &&& octets_of_value(def@, value@, data)
        },
{
    let a = kwarg_avp(def@, kwarg_data(def@, value@));
    lemma_kwarg(def@, value@);
    lemma_wire_one(a);
    lemma_all_readable(dict, seq![a], 1);
    lemma_avps_read_back(dict, seq![a]);
}

/// The AVPs that open a request.
spec fn head_avps(peer: PeerContext, vendor: u32, app: u32) -> Seq<AvpText> {
    let none = Seq::<AvpText>::empty();
    let first = none.push(raw_avp(263, 0, encode_utf8(peer.new_session_id@))).push(
        raw_avp(264, 0, encode_utf8(peer.origin_host@)),
    ).push(raw_avp(296, 0, encode_utf8(peer.origin_realm@))).push(
        raw_avp(283, 0, encode_utf8(peer.destination_realm@)),
    );
    let addressed = match peer.destination_host {
        Some(host) => first.push(raw_avp(293, 0, encode_utf8(host@))),
        None => first,
    };
    addressed.push(raw_avp(277, 0, be_bytes(1, 4))).push(
        grouped_avp(
            260,
            0,
            seq![
                raw_avp(266, 0, be_bytes(vendor as nat, 4)),
                raw_avp(258, 0, be_bytes(app as nat, 4)),
            ],
        ),
    )
}

proof fn lemma_push_wire(v: Seq<AvpText>, a: AvpText)
    ensures
        avps_wire(v.push(a), v.push(a).len()) == avps_wire(v, v.len()) + avp_wire(a),
{
    lemma_wire_concat(v, seq![a]);
    lemma_wire_one(a);
    assert(v + seq![a] =~= v.push(a));
}

proof fn lemma_head_wire(peer: PeerContext, vendor: u32, app: u32)
    ensures
        avps_wire(head_avps(peer, vendor, app), head_avps(peer, vendor, app).len()) == request_head(
            peer,
            vendor,
            app,
        ),
{
    let none = Seq::<AvpText>::empty();
    let a1 = raw_avp(263, 0, encode_utf8(peer.new_session_id@));
    let a2 = raw_avp(264, 0, encode_utf8(peer.origin_host@));
    let a3 = raw_avp(296, 0, encode_utf8(peer.origin_realm@));
    let a4 = raw_avp(283, 0, encode_utf8(peer.destination_realm@));
    let a6 = raw_avp(277, 0, be_bytes(1, 4));
    let c1 = raw_avp(266, 0, be_bytes(vendor as nat, 4));
    let c2 = raw_avp(258, 0, be_bytes(app as nat, 4));
    let a7 = grouped_avp(260, 0, seq![c1, c2]);
    lemma_wire_one(c1);
    lemma_push_wire(seq![c1], c2);
    assert(seq![c1].push(c2) =~= seq![c1, c2]);
    assert(avp_wire(a7) == avp_of(
        260,
        0,
        avp_of(266, 0, be_bytes(vendor as nat, 4)) + avp_of(258, 0, be_bytes(app as nat, 4)),
    ));
    lemma_push_wire(none, a1);
    lemma_push_wire(none.push(a1), a2);
    lemma_push_wire(none.push(a1).push(a2), a3);
    let v3 = none.push(a1).push(a2).push(a3);
    lemma_push_wire(v3, a4);
    let v4 = v3.push(a4);
    assert(avps_wire(none, 0) + avp_wire(a1) =~= avp_wire(a1));
    match peer.destination_host {
        Some(host) => {
            let a5 = raw_avp(293, 0, encode_utf8(host@));
            lemma_push_wire(v4, a5);
            lemma_push_wire(v4.push(a5), a6);
            lemma_push_wire(v4.push(a5).push(a6), a7);
        },
        None => {
            lemma_push_wire(v4, a6);
            lemma_push_wire(v4.push(a6), a7);
            assert(avps_wire(v4, v4.len()) + Seq::<u8>::empty() =~= avps_wire(v4, v4.len()));
        },
    }
}

/// The AVPs of the first keywords of a request.
spec fn kwarg_avps(dict: DictText, kwargs: Seq<(Seq<char>, PyText)>, n: nat) -> Seq<AvpText>
    decreases n,
{
    if n == 0 {
        Seq::empty()
    } else {
        let def = def_by_key(dict.avps, kwargs[n - 1].0)->0;
        kwarg_avps(dict, kwargs, (n - 1) as nat).push(
            kwarg_avp(def, kwarg_data(def, kwargs[n - 1].1)),
        )
    }
}

proof fn lemma_kwargs_wire(dict: DictText, kwargs: Seq<(Seq<char>, PyText)>, n: nat)
    requires
        n <= kwargs.len(),
        forall|i: int| 0 <= i < kwargs.len() ==> !is_reserved((#[trigger] kwargs[i]).0),
        kwargs_wire(dict, kwargs, n) is Ok,
    ensures
        kwargs_wire(dict, kwargs, n) == Ok::<Seq<u8>, ErrorText>(
            avps_wire(kwarg_avps(dict, kwargs, n), n),
        ),
        kwarg_avps(dict, kwargs, n).len() == n,
        forall|i: int|
            0 <= i < n ==> ({
                &&& def_by_key(dict.avps, (#[trigger] kwargs[i]).0) matches Some(def)
                &&& kwarg_avps(dict, kwargs, n)[i] == kwarg_avp(def, kwarg_data(def, kwargs[i].1))
                &&& octets_of_value(def, kwargs[i].1, kwarg_data(def, kwargs[i].1))
            }),
    decreases n,
{
    if n > 0 {
        let before = (n - 1) as nat;
        lemma_kwargs_wire(dict, kwargs, before);
        assert(!is_reserved(kwargs[n - 1].0));
        let def = def_by_key(dict.avps, kwargs[n - 1].0)->0;
        lemma_kwarg(def, kwargs[n - 1].1);
        let a = kwarg_avp(def, kwarg_data(def, kwargs[n - 1].1));
        lemma_push_wire(kwarg_avps(dict, kwargs, before), a);
    }
}

/// Whether a dictionary takes the AVPs that open a request for what they are.
pub open spec fn knows_base(dict: DictText) -> bool {
    &&& is_group(dict, 260, 0)
    &&& !is_group(dict, 258, 0)
    &&& !is_group(dict, 263, 0)
    &&& !is_group(dict, 264, 0)
    &&& !is_group(dict, 266, 0)
    &&& !is_group(dict, 277, 0)
    &&& !is_group(dict, 283, 0)
    &&& !is_group(dict, 293, 0)
    &&& !is_group(dict, 296, 0)
}

/// A request that a script makes by name reads back, under a dictionary that
/// takes its keywords for plain values, with the command and the application
/// that the names stand for, the peer's identifiers, its origin and destination
/// each under its own code, and behind them one AVP for each keyword in the order
/// in which they were given.
pub proof fn named_request_reads_back(
    dict: Dictionary,
    command: &str,
    application: &str,
    peer: PeerContext,
    avps: Vec<(String, PyValue)>,
    request: WireRequest,
    code: u32,
    app: (u32, u32),
    h: int,
)
    requires
        knows_base(dict@),
        call_ensures(Dictionary::command_code_by_name, (&dict, command), Some(code)),
        call_ensures(Dictionary::app_id_by_name, (&dict, application), Some(app)),
        code < 0x1000000,
        call_ensures(
            send_request,
            (&dict, command, application, Some(&peer), &avps),
            Ok(Some(request)),
        ),
        forall|i: int| 0 <= i < avps@.len() ==> !is_reserved((#[trigger] avps@[i]).0@),
        forall|i: int|
            0 <= i < dict@.avps.len() ==> !is_group(
                dict@,
                (#[trigger] dict@.avps[i]).code,
                if dict@.avps[i].vendor_id != 0 {
                    10415
                } else {
                    0
                },
            ) || dict@.avps[i].data_type == AvpType::Grouped,
        forall|i: int|
            0 <= i < avps@.len() ==> (def_by_key(dict@.avps, (#[trigger] avps@[i]).0@) matches Some(
                def,
            ) ==> def.data_type != AvpType::Grouped),
        request.wire@.len() < 0x1000000,
        h == (if peer.destination_host is Some {
            7int
        } else {
            6int
        }),
    ensures
        request.session_id@ == peer.new_session_id@,
        message_of(dict@, request.wire@) matches Some(m) && {
            &&& m.flags == 0xC0
            &&& m.command_code == code
            &&& m.application_id == app.1
            &&& m.hop_by_hop == peer.hop_by_hop
            &&& m.end_to_end == peer.end_to_end
            &&& m.avps.len() == h + avps@.len()
            &&& m.avps[0] == raw_avp(263, 0, encode_utf8(peer.new_session_id@))
            &&& m.avps[1] == raw_avp(264, 0, encode_utf8(peer.origin_host@))
            &&& m.avps[2] == raw_avp(296, 0, encode_utf8(peer.origin_realm@))
            &&& m.avps[3] == raw_avp(283, 0, encode_utf8(peer.destination_realm@))
            &&& peer.destination_host matches Some(host) ==> m.avps[4] == raw_avp(
                293,
                0,
                encode_utf8(host@),
            )
            &&& m.avps[h - 2] == raw_avp(277, 0, be_bytes(1, 4))
            &&& m.avps[h - 1] == grouped_avp(
                260,
                0,
                seq![
                    raw_avp(266, 0, be_bytes(app.0 as nat, 4)),
                    raw_avp(258, 0, be_bytes(app.1 as nat, 4)),
                ],
            )
            &&& forall|i: int|
                0 <= i < avps@.len() ==> ({
                    &&& def_by_key(dict@.avps, (#[trigger] avps@[i]).0@) matches Some(def)
                    &&& m.avps[h + i].code == def.code
                    &&& m.avps[h + i].vendor == if def.vendor_id != 0 {
                        10415u32
                    } else {
                        0u32
                    }
                    &&& m.avps[h + i].value matches DataText::Raw(data)
                    &&& octets_of_value(def, avps@[i].1@, data)
                })
        },
{
    let kwargs = entries_text(avps@);
    assert(kwargs.len() == avps@.len());
    assert forall|i: int| 0 <= i < kwargs.len() implies #[trigger] kwargs[i] == (
        avps@[i].0@,
        avps@[i].1@,
    ) by {}
    assert forall|i: int| 0 <= i < kwargs.len() implies !is_reserved((#[trigger] kwargs[i]).0) by {
        assert(!is_reserved(avps@[i].0@));
    }
    lemma_kwargs_wire(dict@, kwargs, kwargs.len());
    lemma_head_wire(peer, app.0, app.1);
    let head = head_avps(peer, app.0, app.1);
    let tail = kwarg_avps(dict@, kwargs, kwargs.len());
    lemma_wire_concat(head, tail);
    assert(head.len() == h);
    let m = MsgText {
        flags: 0xC0,
        command_code: code,
        application_id: app.1,
        hop_by_hop: peer.hop_by_hop,
        end_to_end: peer.end_to_end,
        avps: head + tail,
    };
    assert(request.wire@ == message_wire(m));
    lemma_request_readable(dict@, peer, app.0, app.1, kwargs);
    wire_reads_back(dict@, m);
    assert forall|i: int| 0 <= i < avps@.len() implies ({
        &&& def_by_key(dict@.avps, (#[trigger] avps@[i]).0@) matches Some(def)
        &&& m.avps[h + i].code == def.code
        &&& m.avps[h + i].vendor == if def.vendor_id != 0 {
            10415u32
        } else {
            0u32
        }
        &&& m.avps[h + i].value matches DataText::Raw(data)
        &&& octets_of_value(def, avps@[i].1@, data)
    }) by {
        assert(kwargs[i] == (avps@[i].0@, avps@[i].1@));
        assert(m.avps[h + i] == tail[i]);
    }
}

proof fn lemma_def_is_listed(avps: Seq<DefText>, key: Seq<char>)
    ensures
        def_by_key(avps, key) matches Some(def) ==> exists|i: int|
            0 <= i < avps.len() && #[trigger] avps[i] == def,
    decreases avps.len(),
{
    if avps.len() > 0 && crate::diameter::dictionary::snake(avps[0].name) != key {
        let rest = avps.skip(1);
        lemma_def_is_listed(rest, key);
        if let Some(def) = def_by_key(rest, key) {
            let i = choose|i: int| 0 <= i < rest.len() && #[trigger] rest[i] == def;
            assert(avps[i + 1] == rest[i]);
        }
    }
}

proof fn lemma_request_readable(
    dict: DictText,
    peer: PeerContext,
    vendor: u32,
    app: u32,
    kwargs: Seq<(Seq<char>, PyText)>,
)
    requires
        knows_base(dict),
        forall|i: int| 0 <= i < kwargs.len() ==> !is_reserved((#[trigger] kwargs[i]).0),
        kwargs_wire(dict, kwargs, kwargs.len()) is Ok,
        forall|i: int|
            0 <= i < dict.avps.len() ==> !is_group(
                dict,
                (#[trigger] dict.avps[i]).code,
                if dict.avps[i].vendor_id != 0 {
                    10415
                } else {
                    0
                },
            ) || dict.avps[i].data_type == AvpType::Grouped,
        forall|i: int|
            0 <= i < kwargs.len() ==> (def_by_key(dict.avps, (#[trigger] kwargs[i]).0) matches Some(
                def,
            ) ==> def.data_type != AvpType::Grouped),
    ensures
        ({
            let all = head_avps(peer, vendor, app) + kwarg_avps(dict, kwargs, kwargs.len());
            all_readable(dict, all, all.len())
        }),
{
    let head = head_avps(peer, vendor, app);
    let tail = kwarg_avps(dict, kwargs, kwargs.len());
    let all = head + tail;
    lemma_kwargs_wire(dict, kwargs, kwargs.len());
    let children = seq![
        raw_avp(266, 0, be_bytes(vendor as nat, 4)),
        raw_avp(258, 0, be_bytes(app as nat, 4)),
    ];
    assert forall|i: int| 0 <= i < children.len() implies readable(dict, #[trigger] children[i]) by {}
    lemma_all_readable(dict, children, children.len());
    assert(readable(dict, grouped_avp(260, 0, children)));
    assert forall|i: int| 0 <= i < all.len() implies readable(dict, #[trigger] all[i]) by {
        if i < head.len() {
            assert(all[i] == head[i]);
        } else {
            let k = i - head.len();
            assert(all[i] == tail[k]);
            assert(def_by_key(dict.avps, kwargs[k].0) is Some);
            let def = def_by_key(dict.avps, kwargs[k].0)->0;
            lemma_def_is_listed(dict.avps, kwargs[k].0);
            let j = choose|j: int| 0 <= j < dict.avps.len() && #[trigger] dict.avps[j] == def;
            assert(!is_group(
                dict,
                dict.avps[j].code,
                if dict.avps[j].vendor_id != 0 {
                    10415
                } else {
                    0
                },
            ));
        }
    }
    lemma_all_readable(dict, all, all.len());
}

} // verus!
