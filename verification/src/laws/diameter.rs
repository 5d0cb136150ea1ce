//! Laws of the Diameter messages that are served, relayed and answered.

use crate::bytes::{be_bytes, be_round_trip, lemma_be_bytes_len, lemma_pow256};
use crate::diameter::codec::{
    find_avp, is_request_flags, lemma_find_push, raw_avp, set_avp_is_found, text_avp, u32_of,
    with_avp, without_avp, Avp, AvpData, AvpText, DataText, DiameterMsg, MsgText,
};
use crate::diameter::server::{
    answer_avps, avp_py, avp_to_py, group_py, BackendReply, ForwardStep, PyDiameterAnswer, PyDiameterRequest,
    PyInboundPeer,
};
use crate::diameter::dictionary::{AvpDef, AvpType, DictText, Dictionary};
use crate::error::ScriptError;
use crate::laws::codec::{four_octets, lemma_four, lemma_four_value};
use crate::pyvalue::{values_text, PyText, PyValue};
use crate::text::{contains_text, opt_str, opt_text, read_utf8};
use vstd::prelude::*;
use vstd::string::*;
use vstd::utf8::{encode_utf8, encode_utf8_decode_utf8, encode_utf8_valid_utf8};

verus! {

/// Whether the AVP at a place is the first of its code and vendor.
pub open spec fn first_of_kind(avps: Seq<AvpText>, i: int, code: u32, vendor: u32) -> bool {
    &&& 0 <= i < avps.len()
    &&& avps[i].code == code
    &&& avps[i].vendor == vendor
    &&& forall|j: int| 0 <= j < i ==> !((#[trigger] avps[j]).code == code && avps[j].vendor == vendor)
}

/// A lookup gives the first AVP of its kind.
pub proof fn lemma_find_is_first(avps: Seq<AvpText>, code: u32, vendor: u32)
    ensures
        match find_avp(avps, code, vendor) {
            Some(a) => exists|i: int| #[trigger]
                first_of_kind(avps, i, code, vendor) && avps[i] == a,
            None => forall|i: int|
                0 <= i < avps.len() ==> !((#[trigger] avps[i]).code == code && avps[i].vendor
                    == vendor),
        },
    decreases avps.len(),
{
    if avps.len() > 0 {
        let rest = avps.skip(1);
        if avps[0].code == code && avps[0].vendor == vendor {
            assert(first_of_kind(avps, 0, code, vendor));
        } else {
            lemma_find_is_first(rest, code, vendor);
            match find_avp(rest, code, vendor) {
                Some(a) => {
                    let i = choose|i: int| #[trigger]
                        first_of_kind(rest, i, code, vendor) && rest[i] == a;
                    assert forall|j: int| 0 <= j < i + 1 implies !((#[trigger] avps[j]).code == code
                        && avps[j].vendor == vendor) by {
                        if j > 0 {
                            assert(rest[j - 1] == avps[j]);
                        }
                    }
                    assert(first_of_kind(avps, i + 1, code, vendor));
                },
                None => {
                    assert forall|j: int| 0 <= j < avps.len() implies !((#[trigger] avps[j]).code
                        == code && avps[j].vendor == vendor) by {
                        if j > 0 {
                            assert(rest[j - 1] == avps[j]);
                        }
                    }
                },
            }
        }
    }
}

/// A lookup in a message gives the first AVP of that code and vendor, and none
/// where there is none.
pub proof fn lookup_gives_the_first(
    msg: DiameterMsg,
    code: u32,
    vendor: u32,
    found: Option<&Avp>,
)
    requires
        call_ensures(DiameterMsg::find, (&msg, code, vendor), found),
    ensures
        match found {
            Some(avp) => exists|i: int| #[trigger]
                first_of_kind(msg@.avps, i, code, vendor) && msg@.avps[i] == avp@,
            None => forall|i: int|
                0 <= i < msg@.avps.len() ==> !((#[trigger] msg@.avps[i]).code == code
                    && msg@.avps[i].vendor == vendor),
        },
{
    lemma_find_is_first(msg@.avps, code, vendor);
}

/// A text reads back from its UTF-8 bytes.
pub proof fn lemma_reads_back(text: Seq<char>)
    ensures
        read_utf8(encode_utf8(text)) == text,
{
    encode_utf8_valid_utf8(text);
    encode_utf8_decode_utf8(text);
}

/// A number reads back from its four bytes.
pub proof fn lemma_u32_reads_back(n: u32)
    ensures
        be_bytes(n as nat, 4).len() == 4,
        u32_of(raw_avp(0, 0, be_bytes(n as nat, 4))) == Some(n),
{
    lemma_pow256();
    be_round_trip(n as nat, 4);
    assert(be_bytes(n as nat, 4).take(4) =~= be_bytes(n as nat, 4));
}

/// Whether an AVP names neither the sender's host nor its realm.
pub open spec fn not_origin(a: AvpText) -> bool {
    !(a.vendor == 0 && (a.code == 264 || a.code == 296))
}

proof fn lemma_filter_push(v: Seq<AvpText>, a: AvpText)
    ensures
        v.push(a).filter(|x: AvpText| not_origin(x)) == if not_origin(a) {
            v.filter(|x: AvpText| not_origin(x)).push(a)
        } else {
            v.filter(|x: AvpText| not_origin(x))
        },
{
    reveal(Seq::filter);
    assert(v.push(a).drop_last() =~= v);
}

proof fn lemma_origin_removed(v: Seq<AvpText>, code: u32)
    requires
        code == 264 || code == 296,
    ensures
        without_avp(v, code, 0).filter(|x: AvpText| not_origin(x)) == v.filter(
            |x: AvpText| not_origin(x),
        ),
    decreases v.len(),
{
    if v.len() > 0 {
        lemma_origin_removed(v.drop_last(), code);
        lemma_filter_push(v.drop_last(), v.last());
        lemma_filter_push(without_avp(v.drop_last(), code, 0), v.last());
        assert(v.drop_last().push(v.last()) =~= v);
    }
}

/// A request that is relayed under another identity reads back with that host
/// as its Origin-Host and that realm as its Origin-Realm. Its last AVP is the
/// Route-Record of this host; the rest are the AVPs that came in, in their
/// order, but for the two that were replaced.
pub proof fn relayed_request_shows_the_identity(
    request: PyDiameterRequest,
    host: &str,
    realm: &str,
    next_hbh: u32,
    sent: DiameterMsg,
)
    requires
        call_ensures(
            PyDiameterRequest::forward_to,
            (&request, Some((host, realm)), next_hbh),
            ForwardStep::Send(sent),
        ),
    ensures
        text_avp(sent@.avps, 264) == Some(host@),
        text_avp(sent@.avps, 296) == Some(realm@),
        sent@.avps.len() > 0,
        sent@.avps.last().code == 282 && sent@.avps.last().vendor == 0,
        sent@.avps.last().value == DataText::Raw(encode_utf8(request@.host)),
        sent@.avps.drop_last().filter(|a: AvpText| not_origin(a)) == request@.msg.avps.filter(
            |a: AvpText| not_origin(a),
        ),
        forall|code: u32, vendor: u32|
            !(vendor == 0 && (code == 264 || code == 296 || code == 282)) ==> #[trigger] find_avp(
                sent@.avps,
                code,
                vendor,
            ) == find_avp(request@.msg.avps, code, vendor),
        sent.hop_by_hop == next_hbh,
        sent.end_to_end == request@.msg.end_to_end,
        sent.flags == request@.msg.flags,
        sent.command_code == request@.msg.command_code,
        sent.application_id == request@.msg.application_id,
{
    let host_avp = raw_avp(264, 0, encode_utf8(host@));
    let realm_avp = raw_avp(296, 0, encode_utf8(realm@));
    let record = raw_avp(282, 0, encode_utf8(request@.host));
    let came = request@.msg.avps;
    let one = with_avp(came, host_avp);
    let two = with_avp(one, realm_avp);
    assert(sent@.avps == two.push(record));
    assert(sent@.avps.drop_last() =~= two);
    lemma_reads_back(host@);
    lemma_reads_back(realm@);
    set_avp_is_found(came, host_avp, 264, 0);
    set_avp_is_found(one, realm_avp, 264, 0);
    set_avp_is_found(one, realm_avp, 296, 0);
    lemma_find_push(two, record, 264, 0);
    lemma_find_push(two, record, 296, 0);
    assert forall|code: u32, vendor: u32|
        !(vendor == 0 && (code == 264 || code == 296 || code == 282)) implies #[trigger] find_avp(
        sent@.avps,
        code,
        vendor,
    ) == find_avp(came, code, vendor) by {
        set_avp_is_found(came, host_avp, code, vendor);
        set_avp_is_found(one, realm_avp, code, vendor);
        lemma_find_push(two, record, code, vendor);
    }
    lemma_origin_removed(came, 264);
    lemma_filter_push(without_avp(came, 264, 0), host_avp);
    lemma_origin_removed(one, 296);
    lemma_filter_push(without_avp(one, 296, 0), realm_avp);
}

/// A request that is relayed under its own identity keeps every AVP in its
/// place, with the Route-Record of this host behind them.
pub proof fn relayed_request_keeps_its_own_identity(
    request: PyDiameterRequest,
    next_hbh: u32,
    sent: DiameterMsg,
)
    requires
        call_ensures(
            PyDiameterRequest::forward_to,
            (&request, None, next_hbh),
            ForwardStep::Send(sent),
        ),
    ensures
        sent@.avps.len() == request@.msg.avps.len() + 1,
        sent@.avps.drop_last() == request@.msg.avps,
        sent@.avps.last().code == 282 && sent@.avps.last().vendor == 0,
        sent@.avps.last().value == DataText::Raw(encode_utf8(request@.host)),
        sent.hop_by_hop == next_hbh,
        sent.end_to_end == request@.msg.end_to_end,
        sent.flags == request@.msg.flags,
        sent.command_code == request@.msg.command_code,
        sent.application_id == request@.msg.application_id,
{
    assert(sent@.avps.drop_last() =~= request@.msg.avps);
}

/// A request is relayed exactly when no Route-Record in it names this host;
/// else it is answered as a loop.
pub proof fn request_that_passed_here_is_a_loop(
    request: PyDiameterRequest,
    next_hbh: u32,
    step: ForwardStep,
)
    requires
        call_ensures(PyDiameterRequest::forward_to, (&request, None, next_hbh), step),
    ensures
        (step is Answer) == exists|i: int|
            0 <= i < request@.msg.avps.len() && (#[trigger] request@.msg.avps[i]).code == 282
                && request@.msg.avps[i].vendor == 0 && request@.msg.avps[i].value == DataText::Raw(
                encode_utf8(request@.host),
            ),
{
    let avps = request@.msg.avps;
    let host = request@.host;
    if step is Answer {
        let i = choose|i: int|
            0 <= i < avps.len() && (#[trigger] avps[i]) == (AvpText {
                flags: avps[i].flags,
                ..raw_avp(282, 0, encode_utf8(host))
            });
        assert(avps[i].code == 282);
    } else {
        if exists|i: int|
            0 <= i < avps.len() && (#[trigger] avps[i]).code == 282 && avps[i].vendor == 0
                && avps[i].value == DataText::Raw(encode_utf8(host)) {
            let i = choose|i: int|
                0 <= i < avps.len() && (#[trigger] avps[i]).code == 282 && avps[i].vendor == 0
                    && avps[i].value == DataText::Raw(encode_utf8(host));
            assert(avps[i] == (AvpText {
                flags: avps[i].flags,
                ..raw_avp(282, 0, encode_utf8(host))
            }));
        }
    }
}

proof fn lemma_answer_reads_back(
    request: MsgText,
    host: Seq<char>,
    realm: Seq<char>,
    result_code: u32,
    error_message: Option<Seq<char>>,
)
    ensures
        ({
            let avps = answer_avps(request, host, realm, result_code, error_message);
            &&& text_avp(avps, 264) == Some(host)
            &&& text_avp(avps, 296) == Some(realm)
            &&& text_avp(avps, 281) == error_message
            &&& text_avp(avps, 263) == text_avp(request.avps, 263)
            &&& find_avp(avps, 268, 0) matches Some(code) && u32_of(code) == Some(result_code)
        }),
{
    let avps = answer_avps(request, host, realm, result_code, error_message);
    lemma_reads_back(host);
    lemma_reads_back(realm);
    lemma_u32_reads_back(result_code);
    let none = Seq::<AvpText>::empty();
    let a_code = raw_avp(268, 0, be_bytes(result_code as nat, 4));
    let a_host = raw_avp(264, 0, encode_utf8(host));
    let a_realm = raw_avp(296, 0, encode_utf8(realm));
    let session = match text_avp(request.avps, 263) {
        Some(id) => none.push(raw_avp(263, 0, encode_utf8(id))),
        None => none,
    };
    let core = session.push(a_code).push(a_host).push(a_realm);
    let all = match error_message {
        Some(message) => core.push(raw_avp(281, 0, encode_utf8(message))),
        None => core,
    };
    assert(avps =~= all);
    assert forall|code: u32| #[trigger] find_avp(all, code, 0) == (if code == 263
        && session.len() > 0 {
        Some(session[0])
    } else if code == 268 {
        Some(a_code)
    } else if code == 264 {
        Some(a_host)
    } else if code == 296 {
        Some(a_realm)
    } else if code == 281 && error_message is Some {
        Some(all.last())
    } else {
        None
    }) by {
        if session.len() > 0 {
            lemma_find_push(none, session[0], code, 0);
        }
        lemma_find_push(session, a_code, code, 0);
        lemma_find_push(session.push(a_code), a_host, code, 0);
        lemma_find_push(session.push(a_code).push(a_host), a_realm, code, 0);
        if error_message is Some {
            lemma_find_push(core, all.last(), code, 0);
        }
    }
    if let Some(id) = text_avp(request.avps, 263) {
        lemma_reads_back(id);
    }
    if let Some(message) = error_message {
        lemma_reads_back(message);
    }
    assert(find_avp(all, 264, 0) == Some(a_host));
    assert(find_avp(all, 296, 0) == Some(a_realm));
    assert(find_avp(all, 268, 0) == Some(a_code));
    assert(u32_of(a_code) == u32_of(raw_avp(0, 0, be_bytes(result_code as nat, 4))));
}

/// The answer to a request names this host and this realm as its origin, and
/// carries the result code, the error message where there is one, the request's
/// session and the request's own identifiers; it is no request.
pub proof fn answer_names_its_sender(
    msg: DiameterMsg,
    peer: PyInboundPeer,
    local_host: String,
    local_realm: String,
    request: PyDiameterRequest,
    result_code: u32,
    error_message: Option<&str>,
    answer: PyDiameterAnswer,
)
    requires
        call_ensures(PyDiameterRequest::new, (msg, peer, local_host, local_realm), request),
        call_ensures(PyDiameterRequest::answer, (&request, result_code, error_message), answer)
            || call_ensures(PyDiameterRequest::reject, (&request, result_code, error_message), answer),
    ensures
        text_avp(answer@.avps, 264) == Some(local_host@),
        text_avp(answer@.avps, 296) == Some(local_realm@),
        text_avp(answer@.avps, 281) == opt_str(error_message),
        text_avp(answer@.avps, 263) == text_avp(msg@.avps, 263),
        find_avp(answer@.avps, 268, 0) matches Some(code) && u32_of(code) == Some(result_code),
        answer@.command_code == msg.command_code,
        answer@.application_id == msg.application_id,
        answer@.hop_by_hop == msg.hop_by_hop,
        answer@.end_to_end == msg.end_to_end,
        !is_request_flags(answer@.flags),
{
    lemma_answer_reads_back(
        msg@,
        local_host@,
        local_realm@,
        result_code,
        opt_str(error_message),
    );
}

/// Where the backend gave no answer, the peer gets one that names this host and
/// realm, says what went wrong and runs under the identifiers that the request
/// came in with; where it did, its answer is handed on under those identifiers.
pub proof fn peer_is_answered_under_its_own_identifiers(
    msg: DiameterMsg,
    peer: PyInboundPeer,
    local_host: String,
    local_realm: String,
    request: PyDiameterRequest,
    sent: DiameterMsg,
    reply: BackendReply,
    answer: PyDiameterAnswer,
)
    requires
        call_ensures(PyDiameterRequest::new, (msg, peer, local_host, local_realm), request),
        call_ensures(PyDiameterRequest::complete_forward, (&request, &sent, reply), answer),
    ensures
        answer@.hop_by_hop == msg.hop_by_hop,
        answer@.end_to_end == msg.end_to_end,
        match reply {
            BackendReply::Answered(from_backend) => {
                &&& answer@.avps == from_backend@.avps
                &&& answer@.flags == from_backend.flags
                &&& answer@.command_code == from_backend.command_code
                &&& answer@.application_id == from_backend.application_id
            },
            BackendReply::Malformed => {
                &&& text_avp(answer@.avps, 264) == Some(local_host@)
                &&& text_avp(answer@.avps, 296) == Some(local_realm@)
                &&& text_avp(answer@.avps, 281) == Some("malformed answer from backend"@)
                &&& text_avp(answer@.avps, 263) == text_avp(sent@.avps, 263)
                &&& find_avp(answer@.avps, 268, 0) matches Some(code) && u32_of(code) == Some(3002u32)
            },
            BackendReply::Failed(reason) => {
                &&& text_avp(answer@.avps, 264) == Some(local_host@)
                &&& text_avp(answer@.avps, 296) == Some(local_realm@)
                &&& text_avp(answer@.avps, 281) == Some(reason@)
                &&& text_avp(answer@.avps, 263) == text_avp(sent@.avps, 263)
                &&& find_avp(answer@.avps, 268, 0) matches Some(code) && u32_of(code) == Some(
                    if contains_text(reason@, "timed out"@) {
                        3004u32
                    } else {
                        3002u32
                    },
                )
            },
        },
{
    match reply {
        BackendReply::Answered(_) => {},
        BackendReply::Malformed => {
            lemma_answer_reads_back(
                sent@,
                local_host@,
                local_realm@,
                3002,
                Some("malformed answer from backend"@),
            );
        },
        BackendReply::Failed(reason) => {
            lemma_answer_reads_back(sent@, local_host@, local_realm@, 3002, Some(reason@));
            lemma_answer_reads_back(sent@, local_host@, local_realm@, 3004, Some(reason@));
        },
    }
}

/// The names of a request are read each under its own code: the session, the
/// host and the realm that it comes from, and those that it goes to; the
/// subscriber is its User-Name.
pub proof fn request_names_are_read_by_their_codes(
    msg: DiameterMsg,
    peer: PyInboundPeer,
    local_host: String,
    local_realm: String,
    request: PyDiameterRequest,
    session_id: Option<String>,
    origin_host: Option<String>,
    origin_realm: Option<String>,
    dest_host: Option<String>,
    dest_realm: Option<String>,
    imsi: Option<String>,
    command: u32,
    application: u32,
    sender: &PyInboundPeer,
)
    requires
        call_ensures(PyDiameterRequest::new, (msg, peer, local_host, local_realm), request),
        call_ensures(PyDiameterRequest::session_id, (&request,), session_id),
        call_ensures(PyDiameterRequest::origin_host, (&request,), origin_host),
        call_ensures(PyDiameterRequest::origin_realm, (&request,), origin_realm),
        call_ensures(PyDiameterRequest::dest_host, (&request,), dest_host),
        call_ensures(PyDiameterRequest::dest_realm, (&request,), dest_realm),
        call_ensures(PyDiameterRequest::extract_imsi, (&request,), imsi),
        call_ensures(PyDiameterRequest::command_code, (&request,), command),
        call_ensures(PyDiameterRequest::application_id, (&request,), application),
        call_ensures(PyDiameterRequest::peer, (&request,), sender),
    ensures
        opt_text(session_id) == text_avp(msg@.avps, 263),
        opt_text(origin_host) == text_avp(msg@.avps, 264),
        opt_text(origin_realm) == text_avp(msg@.avps, 296),
        opt_text(dest_host) == text_avp(msg@.avps, 293),
        opt_text(dest_realm) == text_avp(msg@.avps, 283),
        opt_text(imsi) == text_avp(msg@.avps, 1),
        command == msg.command_code,
        application == msg.application_id,
        *sender == peer,
{
}

/// The result of an answer is the number that its Result-Code carries.
pub proof fn answer_result_is_its_result_code(
    msg: DiameterMsg,
    answer: PyDiameterAnswer,
    found: Option<&Avp>,
    number: Option<u32>,
    result: Option<u32>,
)
    requires
        call_ensures(PyDiameterAnswer::from_msg, (msg,), answer),
        call_ensures(DiameterMsg::find, (&msg, 268, 0), found),
        found matches Some(avp) ==> call_ensures(Avp::as_u32, (avp,), number),
        found is None ==> number is None,
        call_ensures(PyDiameterAnswer::result_code, (&answer,), result),
    ensures
        result == number,
{
}

/// A request that came round again is answered as a loop: this host and realm as
/// the origin, the code for a loop, a message that names this host, and the
/// identifiers that the request came in with.
pub proof fn loop_is_answered_under_its_own_identifiers(
    msg: DiameterMsg,
    peer: PyInboundPeer,
    local_host: String,
    local_realm: String,
    request: PyDiameterRequest,
    next_hbh: u32,
    answer: PyDiameterAnswer,
)
    requires
        call_ensures(PyDiameterRequest::new, (msg, peer, local_host, local_realm), request),
        call_ensures(
            PyDiameterRequest::forward_to,
            (&request, None, next_hbh),
            ForwardStep::Answer(answer),
        ),
    ensures
        text_avp(answer@.avps, 264) == Some(local_host@),
        text_avp(answer@.avps, 296) == Some(local_realm@),
        text_avp(answer@.avps, 281) == Some(
            "loop detected: "@ + local_host@ + " already in Route-Record"@,
        ),
        text_avp(answer@.avps, 263) == text_avp(msg@.avps, 263),
        find_avp(answer@.avps, 268, 0) matches Some(code) && u32_of(code) == Some(3005u32),
        answer@.hop_by_hop == msg.hop_by_hop,
        answer@.end_to_end == msg.end_to_end,
        answer@.command_code == msg.command_code,
        answer@.application_id == msg.application_id,
{
    lemma_answer_reads_back(
        msg@,
        local_host@,
        local_realm@,
        3005,
        Some("loop detected: "@ + local_host@ + " already in Route-Record"@),
    );
}

/// The AVPs of a request and of an answer are listed in their order, each as its
/// code, its vendor and its value.
pub proof fn avps_are_listed_in_order(
    dict: Dictionary,
    request: PyDiameterRequest,
    answer: PyDiameterAnswer,
    rows: Vec<PyValue>,
    lines: Vec<PyValue>,
)
    requires
        call_ensures(PyDiameterRequest::iter_avps, (&request, &dict), rows),
        call_ensures(PyDiameterAnswer::iter_avps, (&answer, &dict), lines),
    ensures
        rows@.len() == request@.msg.avps.len(),
        lines@.len() == answer@.avps.len(),
        forall|i: int|
            0 <= i < rows@.len() ==> ((#[trigger] rows@[i])@ matches PyText::Tuple(row) && row.len()
                == 3 && row[0] == PyText::Int(request@.msg.avps[i].code as int) && row[1]
                == PyText::Int(request@.msg.avps[i].vendor as int) && row[2] == avp_py(
                dict@,
                request@.msg.avps[i].code,
                request@.msg.avps[i].vendor,
                request@.msg.avps[i],
            )),
        forall|i: int|
            0 <= i < lines@.len() ==> ((#[trigger] lines@[i])@ matches PyText::Tuple(row)
                && row.len() == 3 && row[0] == PyText::Int(answer@.avps[i].code as int) && row[1]
                == PyText::Int(answer@.avps[i].vendor as int) && row[2] == avp_py(
                dict@,
                answer@.avps[i].code,
                answer@.avps[i].vendor,
                answer@.avps[i],
            )),
{
    assert(values_text(rows@).len() == rows@.len());
    assert(values_text(lines@).len() == lines@.len());
    assert forall|i: int| 0 <= i < rows@.len() implies ((#[trigger] rows@[i])@ matches PyText::Tuple(
        row,
    ) && row.len() == 3 && row[0] == PyText::Int(request@.msg.avps[i].code as int) && row[1]
        == PyText::Int(request@.msg.avps[i].vendor as int) && row[2] == avp_py(
        dict@,
        request@.msg.avps[i].code,
        request@.msg.avps[i].vendor,
        request@.msg.avps[i],
    )) by {
        assert(values_text(rows@)[i] == rows@[i]@);
    }
    assert forall|i: int| 0 <= i < lines@.len() implies ((
    #[trigger] lines@[i])@ matches PyText::Tuple(row) && row.len() == 3 && row[0] == PyText::Int(
        answer@.avps[i].code as int,
    ) && row[1] == PyText::Int(answer@.avps[i].vendor as int) && row[2] == avp_py(
        dict@,
        answer@.avps[i].code,
        answer@.avps[i].vendor,
        answer@.avps[i],
    )) by {
        assert(values_text(lines@)[i] == lines@[i]@);
    }
}

/// A plain value is read as what its AVP is defined to be: text as text, a
/// number as its number, anything else as its octets.
pub proof fn plain_value_is_read_by_its_type(
    dict: Dictionary,
    avp: Avp,
    octets: Vec<u8>,
    def: Option<&AvpDef>,
    value: PyValue,
)
    requires
        avp.value == AvpData::Raw(octets),
        call_ensures(Dictionary::lookup_avp, (&dict, avp.code, avp.vendor), def),
        call_ensures(avp_to_py, (&dict, avp.code, avp.vendor, &avp), value),
    ensures
        match def {
            None => value@ == PyText::Bytes(octets@),
            Some(d) => match d.data_type {
                AvpType::UTF8String | AvpType::DiameterIdentity => value@ == PyText::Text(
                    read_utf8(octets@),
                ),
                AvpType::Unsigned32 | AvpType::Enumerated => octets@.len() >= 4 ==> value@
                    == PyText::Int(four_octets(octets@, 0)),
                AvpType::OctetString | AvpType::Address | AvpType::Time => value@ == PyText::Bytes(
                    octets@,
                ),
                _ => true,
            },
        },
{
    if octets@.len() >= 4 {
        lemma_four_value(octets@.take(4));
        let s = octets@.take(4);
        assert(s[0] == octets@[0] && s[1] == octets@[1] && s[2] == octets@[2] && s[3]
            == octets@[3]);
    }
}

/// A child of a group is listed as its code, its value and its vendor, and the
/// children in their order.
pub proof fn group_is_read_child_by_child(dict: DictText, children: Seq<AvpText>, n: nat)
    requires
        n <= children.len(),
    ensures
        group_py(dict, children, n).len() == n,
        forall|i: int|
            0 <= i < n ==> #[trigger] group_py(dict, children, n)[i] == PyText::Tuple(
                seq![
                    PyText::Int(children[i].code as int),
                    avp_py(dict, children[i].code, children[i].vendor, children[i]),
                    PyText::Int(children[i].vendor as int),
                ],
            ),
    decreases n,
{
    if n > 0 {
        group_is_read_child_by_child(dict, children, (n - 1) as nat);
    }
}

/// What a script sets under a code is what a lookup of that code and vendor then
/// gives, as the value itself where the AVP is defined as text or as a number,
/// and every other AVP stays.
pub proof fn assigned_value_is_read_back(
    dict: Dictionary,
    request: &mut PyDiameterRequest,
    code: u32,
    value: PyValue,
    vendor: u32,
    def: &AvpDef,
    other: u32,
    other_vendor: u32,
)
    requires
        call_ensures(
            PyDiameterRequest::set_avp,
            (request, &dict, &PyValue::Int(code as i128), &value, vendor),
            Ok::<(), ScriptError>(()),
        ),
        call_ensures(Dictionary::lookup_avp, (&dict, code, vendor), Some(def)),
        !(value@ is List),
        other != code || other_vendor != vendor,
    ensures
        find_avp(final(request)@.msg.avps, code, vendor) matches Some(avp) && (
        avp.value matches DataText::Raw(data) && match def.data_type {
            AvpType::UTF8String | AvpType::DiameterIdentity => value@ matches PyText::Text(s) && data
                == encode_utf8(s),
            AvpType::Unsigned32 | AvpType::Enumerated => data.len() == 4 && (value@ matches PyText::Int(
                n,
            ) ==> four_octets(data, 0) == n),
            AvpType::OctetString => value@ matches PyText::Bytes(b) ==> data == b,
            _ => true,
        }),
        find_avp(final(request)@.msg.avps, other, other_vendor) == find_avp(
            old(request)@.msg.avps,
            other,
            other_vendor,
        ),
        final(request)@.host == old(request)@.host,
        final(request)@.realm == old(request)@.realm,
        final(request)@.inbound_hbh == old(request)@.inbound_hbh,
        final(request)@.inbound_e2e == old(request)@.inbound_e2e,
{
    let target = PyValue::Int(code as i128)@;
    assert(target == PyText::Int(code as int));
    let avp = crate::diameter::server::assigned_avp(dict@, target, value@, vendor)->Ok_0;
    set_avp_is_found(old(request)@.msg.avps, avp, other, other_vendor);
    assert(avp.code == code && avp.vendor == vendor);
    if let PyText::Int(n) = value@ {
        if 0 <= n <= u32::MAX {
            lemma_four(n as u32);
        }
    }
    lemma_pow256();
    lemma_be_bytes_len(crate::pyvalue::as_u32(value@)->Ok_0 as nat, 4);
}

} // verus!
