//! Laws of what a script changes in a Diameter message, and of answers and peers.

use crate::diameter::codec::{
    find_avp, removed_avp_is_gone, set_avp_is_found, without_avp, Avp, AvpText, DiameterMsg,
};
use crate::diameter::dictionary::{AvpDef, Dictionary};
use crate::diameter::server::{
    answer_echoes_request, avp_to_py, build_answer, build_avp, build_child_spec, PyDiameterAnswer,
    PyDiameterRequest, PyInboundPeer, PyPeer, PyPeerPool,
};
use crate::error::ScriptError;
use crate::pyvalue::{PyText, PyValue};
use crate::text::{decimal, opt_str, texts};
use vstd::prelude::*;
use vstd::string::*;

verus! {

/// How many AVPs of a list have a code and a vendor.
pub open spec fn count_of(avps: Seq<AvpText>, code: u32, vendor: u32) -> nat
    decreases avps.len(),
{
    if avps.len() == 0 {
        0
    } else {
        count_of(avps.drop_last(), code, vendor) + if avps.last().code == code && avps.last().vendor
            == vendor {
            1nat
        } else {
            0nat
        }
    }
}

proof fn lemma_removed_count(avps: Seq<AvpText>, code: u32, vendor: u32)
    ensures
        without_avp(avps, code, vendor).len() + count_of(avps, code, vendor) == avps.len(),
    decreases avps.len(),
{
    if avps.len() > 0 {
        lemma_removed_count(avps.drop_last(), code, vendor);
    }
}

/// Removing an AVP from a request removes every one of that code and vendor,
/// says how many there were, and leaves the others.
pub proof fn removed_avps_are_counted(
    request: &mut PyDiameterRequest,
    code: u32,
    vendor: u32,
    removed: usize,
    other: u32,
    other_vendor: u32,
)
    requires
        call_ensures(PyDiameterRequest::remove_avp, (request, code, vendor), removed),
        other != code || other_vendor != vendor,
    ensures
        find_avp(final(request)@.msg.avps, code, vendor) is None,
        find_avp(final(request)@.msg.avps, other, other_vendor) == find_avp(
            old(request)@.msg.avps,
            other,
            other_vendor,
        ),
        removed == count_of(old(request)@.msg.avps, code, vendor),
        final(request)@.msg.avps.len() + removed == old(request)@.msg.avps.len(),
        final(request)@.msg.command_code == old(request)@.msg.command_code,
        final(request)@.msg.hop_by_hop == old(request)@.msg.hop_by_hop,
        final(request)@.host == old(request)@.host,
        final(request)@.realm == old(request)@.realm,
{
    removed_avp_is_gone(old(request)@.msg.avps, code, vendor, other, other_vendor);
    lemma_removed_count(old(request)@.msg.avps, code, vendor);
}

/// Removing an AVP from an answer does as it does in a request.
pub proof fn removed_answer_avps_are_counted(
    answer: &mut PyDiameterAnswer,
    code: u32,
    vendor: u32,
    removed: usize,
    other: u32,
    other_vendor: u32,
)
    requires
        call_ensures(PyDiameterAnswer::remove_avp, (answer, code, vendor), removed),
        other != code || other_vendor != vendor,
    ensures
        find_avp(final(answer)@.avps, code, vendor) is None,
        find_avp(final(answer)@.avps, other, other_vendor) == find_avp(
            old(answer)@.avps,
            other,
            other_vendor,
        ),
        removed == count_of(old(answer)@.avps, code, vendor),
        final(answer)@.command_code == old(answer)@.command_code,
        final(answer)@.flags == old(answer)@.flags,
{
    removed_avp_is_gone(old(answer)@.avps, code, vendor, other, other_vendor);
    lemma_removed_count(old(answer)@.avps, code, vendor);
}

/// Removing an AVP from a message does as it does in a request, and setting one
/// puts it in the place of all that have its code and vendor, at the end; adding
/// one leaves what was there.
pub proof fn message_is_edited_by_code_and_vendor(
    removing: &mut DiameterMsg,
    code: u32,
    vendor: u32,
    removed: usize,
    setting: &mut DiameterMsg,
    adding: &mut DiameterMsg,
    avp: Avp,
    i: int,
)
    requires
        call_ensures(DiameterMsg::remove, (removing, code, vendor), removed),
        call_ensures(DiameterMsg::set, (setting, avp), ()),
        call_ensures(DiameterMsg::push, (adding, avp), ()),
    ensures
        find_avp(final(removing)@.avps, code, vendor) is None,
        removed == count_of(old(removing)@.avps, code, vendor),
        find_avp(final(setting)@.avps, avp@.code, avp@.vendor) == Some(avp@),
        final(setting)@.avps.len() == old(setting)@.avps.len() - count_of(
            old(setting)@.avps,
            avp@.code,
            avp@.vendor,
        ) + 1,
        final(setting)@.avps.last() == avp@,
        final(adding)@.avps.len() == old(adding)@.avps.len() + 1,
        0 <= i < old(adding)@.avps.len() ==> final(adding)@.avps[i] == old(adding)@.avps[i],
        final(adding)@.avps.last() == avp@,
{
    removed_avp_is_gone(old(removing)@.avps, code, vendor, code, vendor);
    lemma_removed_count(old(removing)@.avps, code, vendor);
    set_avp_is_found(old(setting)@.avps, avp@, code, vendor);
    lemma_removed_count(old(setting)@.avps, avp@.code, avp@.vendor);
}

/// An AVP that is inserted stands behind all that were there, which stay; it has
/// the code that was named, and the vendor that was given or else the one that
/// goes with the name.
pub proof fn inserted_avp_stands_last(
    dict: Dictionary,
    request: &mut PyDiameterRequest,
    name: &str,
    target: PyValue,
    def: &AvpDef,
    value: PyValue,
    vendor: u32,
    made: Avp,
    i: int,
)
    requires
        target@ == PyText::Text(name@),
        call_ensures(Dictionary::lookup_by_name, (&dict, name), Some(def)),
        call_ensures(
            build_avp,
            (
                &dict,
                def.code,
                if vendor != 0 {
                    vendor
                } else {
                    def.vendor_id
                },
                &value,
            ),
            Ok(made),
        ),
        call_ensures(
            PyDiameterRequest::insert_avp,
            (request, &dict, &target, &value, vendor),
            Ok::<(), ScriptError>(()),
        ),
    ensures
        final(request)@.msg.avps.len() == old(request)@.msg.avps.len() + 1,
        0 <= i < old(request)@.msg.avps.len() ==> final(request)@.msg.avps[i]
            == old(request)@.msg.avps[i],
        final(request)@.msg.avps.last() == made@,
        made.code == def.code,
        made.vendor == if vendor != 0 {
            vendor
        } else {
            def.vendor_id
        },
        final(request)@.msg.hop_by_hop == old(request)@.msg.hop_by_hop,
{
}

/// What is set in an answer under a name is what a lookup of that code and
/// vendor then gives.
pub proof fn answer_value_is_read_back(
    dict: Dictionary,
    answer: &mut PyDiameterAnswer,
    name: &str,
    target: PyValue,
    def: &AvpDef,
    value: PyValue,
    made: Avp,
    after: PyDiameterAnswer,
    told: PyValue,
    read: Option<PyValue>,
)
    requires
        target@ == PyText::Text(name@),
        call_ensures(Dictionary::lookup_by_name, (&dict, name), Some(def)),
        call_ensures(build_avp, (&dict, def.code, def.vendor_id, &value), Ok(made)),
        call_ensures(
            PyDiameterAnswer::set_avp,
            (answer, &dict, &target, &value, 0),
            Ok::<(), ScriptError>(()),
        ),
        call_ensures(avp_to_py, (&dict, def.code, def.vendor_id, &made), told),
        call_ensures(PyDiameterAnswer::get_avp, (&after, &dict, def.code, def.vendor_id), read),
    ensures
        after == *final(answer) ==> (read matches Some(value) && value@ == told@),
        final(answer)@.command_code == old(answer)@.command_code,
        final(answer)@.hop_by_hop == old(answer)@.hop_by_hop,
        final(answer)@.end_to_end == old(answer)@.end_to_end,
        final(answer)@.flags == old(answer)@.flags,
{
    set_avp_is_found(old(answer)@.avps, made@, 0, 0);
}

/// A child of a group is written as its code, its value and its vendor, in that
/// order; without a vendor it is of the base protocol, or of the vendor that goes
/// with its name.
pub proof fn child_is_written_code_value_vendor(
    dict: Dictionary,
    child: PyValue,
    parts: Seq<PyText>,
    code: u32,
    value: PyValue,
    vendor: u32,
    made: Avp,
    built: Avp,
)
    requires
        child@ == PyText::Tuple(parts),
        parts.len() == 3,
        parts[0] == PyText::Int(code as int),
        parts[1] == value@,
        parts[2] == PyText::Int(vendor as int),
        call_ensures(build_avp, (&dict, code, vendor, &value), Ok(built)),
        call_ensures(build_child_spec, (&dict, &child), Ok(made)),
    ensures
        made@ == built@,
        made.code == code,
        made.vendor == vendor,
{
}

/// An answer is marked as an error exactly for the codes of protocol errors and
/// permanent failures, is no request, and can be proxied where the request can.
pub proof fn answer_is_an_error_by_its_code(
    request: DiameterMsg,
    host: &str,
    realm: &str,
    code: u32,
    message: Option<&str>,
    answer: DiameterMsg,
    shown: PyDiameterAnswer,
    error: bool,
    command: u32,
)
    requires
        call_ensures(build_answer, (&request, host, realm, code, message), answer),
        call_ensures(PyDiameterAnswer::from_msg, (answer,), shown),
        call_ensures(PyDiameterAnswer::is_error, (&shown,), error),
        call_ensures(PyDiameterAnswer::command_code, (&shown,), command),
    ensures
        error <==> 3000 <= code < 4000 || 5000 <= code < 6000,
        command == request.command_code,
        answer.flags < 128,
        (answer.flags as int / 64) % 2 == 1 <==> (request.flags as int / 64) % 2 == 1,
        answer.hop_by_hop == request.hop_by_hop,
        answer.end_to_end == request.end_to_end,
        answer.application_id == request.application_id,
{
    answer_echoes_request(request@, host@, realm@, code, opt_str(message));
}

/// A request shows its own command and flags.
pub proof fn request_shows_its_header(
    msg: DiameterMsg,
    peer: PyInboundPeer,
    host: String,
    realm: String,
    request: PyDiameterRequest,
    is_request: bool,
    is_proxiable: bool,
    dict: Dictionary,
    command: String,
    titled: String,
    application: Option<String>,
    named: Option<String>,
)
    requires
        call_ensures(PyDiameterRequest::new, (msg, peer, host, realm), request),
        call_ensures(PyDiameterRequest::is_request, (&request,), is_request),
        call_ensures(PyDiameterRequest::is_proxiable, (&request,), is_proxiable),
        call_ensures(PyDiameterRequest::command_name, (&request, &dict), command),
        call_ensures(Dictionary::command_name, (&dict, msg.command_code, is_request), titled),
        call_ensures(PyDiameterRequest::application_name, (&request, &dict), application),
        call_ensures(Dictionary::app_name_by_id, (&dict, msg.application_id), named),
    ensures
        is_request <==> msg.flags >= 128,
        is_proxiable <==> (msg.flags as int / 64) % 2 == 1,
        command@ == titled@,
        crate::text::opt_text(application) == crate::text::opt_text(named),
{
}

/// A peer is what was named: its name, its host, its port and whether it is open,
/// under the tenant that asked.
pub proof fn peer_is_what_was_named(
    tenant: &str,
    name: String,
    host: String,
    port: u16,
    open: bool,
    peer: PyPeer,
    addr: String,
    truth: bool,
    names: Vec<String>,
    owner: String,
    pool: PyPeerPool,
    picked: PyPeer,
    size: usize,
)
    requires
        call_ensures(PyPeer::from_named, (tenant, Some((name, host, port, open))), Some(peer)),
        call_ensures(PyPeer::addr, (&peer,), addr),
        call_ensures(PyPeer::__bool__, (&peer,), truth),
        call_ensures(PyPeerPool::new, (names, owner), pool),
        call_ensures(PyPeerPool::picked, (&pool, Some((name, host, port, open))), Some(picked)),
        call_ensures(PyPeerPool::len, (&pool,), size),
    ensures
        peer.name@ == name@ && peer.host@ == host@ && peer.port == port && peer.open == open,
        peer.tenant@ == tenant@,
        addr@ == host@ + ":"@ + decimal(port as nat),
        truth == open,
        picked.name@ == name@ && picked.host@ == host@ && picked.port == port && picked.open == open,
        picked.tenant@ == owner@,
        size == names@.len(),
{
    assert(texts(names@).len() == names@.len());
}

} // verus!
