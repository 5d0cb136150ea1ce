//! Laws of what is refused, and of what a refusal leaves as it was.

use crate::b2bua::{OriginateArgs, OriginateParams, PyB2buaControl};
use crate::call::routing::{validate_send_socket, DialTarget, PolicyArgs, RouteArg, UasReply};
use crate::call::PyCall;
use crate::error::{ErrorKind, ScriptError};
use crate::gateway::{PyGateway, Requested};
use crate::ipsec::{Allocation, PyAuthVectorHandle, PyIpsec, PyTransform};
use crate::net::IpAddr;
use crate::numbers::{NumberRuntime, Reshaped};
use crate::pyvalue::{entries_text, entry, PyValue};
use crate::sec_agree::PySecurityOffer;
use crate::text::trim_text;
use vstd::prelude::*;
use vstd::string::*;

verus! {

/// A call is answered with a code of success only, and progress is made with a
/// provisional code only; a code outside its range is refused and leaves the call
/// as it was. Without a body nothing else is refused.
pub proof fn answers_succeed_and_progress_is_provisional(
    call: &mut PyCall,
    code: u16,
    reason: &str,
    body: Option<&PyValue>,
    content_type: Option<&str>,
    answered: Result<UasReply, ScriptError>,
    ringing: PyCall,
    progressed: Result<UasReply, ScriptError>,
)
    requires
        call_ensures(PyCall::answer, (call, code, reason, body, content_type), answered),
        call_ensures(PyCall::progress, (&ringing, code, reason, body, content_type), progressed),
    ensures
        !(200 <= code < 300) ==> answered is Err && final(call)@ == old(call)@,
        200 <= code < 300 && body is None ==> answered is Ok,
        !(100 <= code < 200) ==> progressed is Err,
        100 <= code < 200 && body is None ==> progressed is Ok,
        (body matches Some(value) && !(value@ is Bytes) && !(value@ is Text)) ==> answered is Err
            && progressed is Err,
{
}

/// A call is placed with an offer or with anchored media, one of the two; an
/// empty offer is none, and privacy is allowed or restricted.
pub proof fn placed_call_needs_one_media_plan(
    control: PyB2buaControl,
    args: OriginateArgs,
    placed: Result<OriginateParams, ScriptError>,
    offer: &str,
    trimmed: String,
)
    requires
        call_ensures(PyB2buaControl::originate, (&control, args), placed),
        args.sdp matches Some(sdp) ==> offer@ == sdp@,
        call_ensures(trim_text, (offer,), trimmed),
    ensures
        args.sdp is Some && args.media ==> placed is Err,
        args.sdp is None && !args.media ==> placed is Err,
        args.sdp is Some && trimmed@.len() == 0 ==> placed is Err,
        (args.privacy matches Some(privacy) && privacy@ != "allowed"@ && privacy@ != "restricted"@)
            ==> placed is Err,
{
}

/// A transfer is accepted in one of its two modes, or without one.
pub proof fn transfer_has_a_known_mode(
    call: &mut PyCall,
    target: Option<String>,
    next_hop: Option<String>,
    mode: Option<&str>,
    profile: Option<String>,
    outcome: Result<(), ScriptError>,
)
    requires
        call_ensures(PyCall::accept_refer, (call, target, next_hop, mode, profile), outcome),
    ensures
        match mode {
            Some(name) => outcome is Ok <==> name@ == "terminate"@ || name@ == "transparent"@,
            None => outcome is Ok,
        },
        outcome is Err ==> final(call)@ == old(call)@,
{
}

/// A call is not routed without a carrier, and neither routed nor dialled from
/// what is no listener; it stays as it was then.
pub proof fn routing_needs_a_carrier_and_a_listener(
    routing: &mut PyCall,
    carriers: Vec<RouteArg>,
    timeout: u32,
    socket: Option<String>,
    routed: Result<(), ScriptError>,
    dialling: &mut PyCall,
    target: DialTarget,
    args: PolicyArgs,
    runtime: NumberRuntime,
    reshaped: Option<Reshaped>,
    dialled: Result<(), ScriptError>,
    usable: Result<(), ScriptError>,
)
    requires
        call_ensures(PyCall::route, (routing, carriers, timeout, socket), routed),
        call_ensures(PyCall::dial, (dialling, target, args, &runtime, reshaped), dialled),
        call_ensures(validate_send_socket, (&socket,), usable),
        target@.send_socket == crate::text::opt_text(socket),
    ensures
        carriers@.len() == 0 ==> routed is Err,
        usable is Err ==> routed is Err && dialled is Err,
        routed is Err ==> final(routing)@ == old(routing)@,
        dialled is Err ==> final(dialling)@ == old(dialling)@,
{
}

/// A group is not added where one of its destinations has no address, and the
/// groups then stay as they were.
pub proof fn destination_needs_an_address(
    gateway: &mut PyGateway,
    name: &str,
    destinations: Vec<Requested>,
    algorithm: &str,
    probe: bool,
    outcome: Result<(), ScriptError>,
)
    requires
        old(gateway).wf(),
        call_ensures(
            PyGateway::add_group,
            (gateway, name, destinations, algorithm, probe),
            outcome,
        ),
        destinations@.len() > 0,
        entry(entries_text(destinations@[destinations@.len() - 1].dict@), "uri"@) is None,
    ensures
        outcome is Err,
        final(gateway)@ == old(gateway)@,
{
    let all = crate::gateway::requests_text(destinations@);
    assert(all.len() == destinations@.len());
    assert(all.last() == destinations@[destinations@.len() - 1]@);
}

/// A pair is allocated exactly for a transform that fits the offer, with keys
/// that were not used yet, for a terminal at an address of a family that the
/// proxy listens in; a transform that does not fit leaves the keys unused.
pub proof fn allocation_needs_a_fit_and_fresh_keys(
    ipsec: PyIpsec,
    av: &mut PyAuthVectorHandle,
    offer: PySecurityOffer,
    transform: PyTransform,
    expires: Option<u64>,
    outcome: Result<Allocation, ScriptError>,
    fits: bool,
    addr: &str,
    ip: Option<IpAddr>,
    v6: bool,
    local: Option<IpAddr>,
)
    requires
        call_ensures(
            PyIpsec::allocate,
            (&ipsec, av, &offer, transform, expires, None::<&str>),
            outcome,
        ),
        call_ensures(PyTransform::compatible_with, (&transform, &offer), fits),
        addr@ == offer.ue_addr@,
        call_ensures(IpAddr::parse, (addr,), ip),
        ip matches Some(found) ==> v6 == (found is V6),
        call_ensures(PyIpsec::pcscf_addr_for, (&ipsec, v6), local),
    ensures
        outcome is Ok <==> fits && old(av)@ is Some && ip is Some && local is Some,
        outcome matches Err(e) ==> e.kind == ErrorKind::Value,
        !fits ==> final(av)@ == old(av)@,
        fits ==> final(av)@ is None,
{
}

} // verus!
