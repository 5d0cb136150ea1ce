//! Laws of what a call keeps: a setting that was made is the one that is read.

use crate::call::action::{
    CallAction, PyFlow, PyMediaHandle, Replaces, RoOutcome, RouteAttempt, SessionTimerOverride,
};
use crate::call::{CallText, PyCall};
use crate::error::ScriptError;
use crate::laws::pyvalue::{told_number, told_text};
use crate::lcr::{PyRoute, Route};
use crate::pyvalue::{PyText, PyValue};
use crate::sip::{SipMessage, SipUri};
use crate::text::opt_str;
use vstd::prelude::*;
use vstd::string::*;

verus! {

/// A new call has the identifier, the message, the sender and the transport that
/// it was made with; it is calling, and nothing has been decided of it.
pub proof fn new_call_is_what_it_was_made_with(
    id: String,
    message: SipMessage,
    source_ip: String,
    transport: String,
    call: PyCall,
    its_id: &str,
    its_source: &str,
    its_transport: &str,
    its_state: &str,
    its_message: SipMessage,
    its_action: CallAction,
    its_user: Option<&str>,
    its_credentials: Option<(&str, &str)>,
)
    requires
        call_ensures(PyCall::new, (id, message, source_ip, transport), call),
        call_ensures(PyCall::id, (&call,), its_id),
        call_ensures(PyCall::source_ip, (&call,), its_source),
        call_ensures(PyCall::transport_str, (&call,), its_transport),
        call_ensures(PyCall::state, (&call,), its_state),
        call_ensures(PyCall::message, (&call,), &its_message),
        call_ensures(PyCall::action, (&call,), &its_action),
        call_ensures(PyCall::get_auth_user, (&call,), its_user),
        call_ensures(PyCall::outbound_credentials, (&call,), its_credentials),
    ensures
        its_id@ == id@,
        its_source@ == source_ip@,
        its_transport@ == transport@,
        its_state@ == "calling"@,
        its_message@ == message@,
        its_action is NoAction,
        its_user is None,
        its_credentials is None,
{
}

/// A session timer that is set is the one that is read, each value in its place.
pub proof fn session_timer_is_kept(
    call: &mut PyCall,
    expires: u32,
    min_se: u32,
    refresher: &str,
    after: PyCall,
    timer: Option<&SessionTimerOverride>,
)
    requires
        call_ensures(PyCall::session_timer, (call, expires, min_se, refresher), ()),
    ensures
        after == *final(call) && call_ensures(PyCall::session_timer_override, (&after,), timer)
            ==> (timer matches Some(t) && t.session_expires == expires && t.min_se == min_se
            && t.refresher@ == refresher@),
        final(call)@ == (CallText { session_timer: final(call)@.session_timer, ..old(call)@ }),
{
}

/// Credentials that are set are those that are read: the user name as the user
/// name, the password as the password.
pub proof fn credentials_are_kept(
    call: &mut PyCall,
    username: &str,
    password: &str,
    after: PyCall,
    kept: Option<(&str, &str)>,
)
    requires
        call_ensures(PyCall::set_credentials, (call, username, password), ()),
    ensures
        after == *final(call) && call_ensures(PyCall::outbound_credentials, (&after,), kept) ==> (
        kept matches Some((user, secret)) && user@ == username@ && secret@ == password@),
        final(call)@ == (CallText { credentials: final(call)@.credentials, ..old(call)@ }),
{
}

/// A REFER that came in is read as it was: its target, and the dialog that it
/// replaces under the keys of the dict.
pub proof fn received_refer_is_kept(
    call: &mut PyCall,
    uri: String,
    replaces: Option<Replaces>,
    after: PyCall,
    target: Option<&str>,
    dialog: Option<PyValue>,
)
    requires
        call_ensures(PyCall::set_refer_to, (call, uri, replaces), ()),
    ensures
        after == *final(call) && call_ensures(PyCall::refer_to, (&after,), target) ==> opt_str(
            target,
        ) == Some(uri@),
        after == *final(call) && call_ensures(PyCall::refer_replaces, (&after,), dialog) ==> (
        match replaces {
            Some(r) => dialog matches Some(value) && value@ == PyText::Dict(
                seq![
                    ("call_id"@, PyText::Text(r.call_id@)),
                    ("from_tag"@, PyText::Text(r.from_tag@)),
                    ("to_tag"@, PyText::Text(r.to_tag@)),
                    ("early_only"@, PyText::Bool(r.early_only)),
                ],
            ),
            None => dialog is None,
        }),
{
}

/// The side that a REFER came from is `a` for the caller's and `b` for the
/// other.
pub proof fn refer_side_is_kept(
    call: &mut PyCall,
    from_a_leg: bool,
    after: PyCall,
    side: Option<&str>,
)
    requires
        call_ensures(PyCall::set_refer_from_a_leg, (call, from_a_leg), ()),
    ensures
        after == *final(call) && call_ensures(PyCall::refer_side, (&after,), side) ==> opt_str(side)
            == Some(
            if from_a_leg {
                "a"@
            } else {
                "b"@
            },
        ),
{
}

/// The host that is set for the From header overrides the From host, and no
/// other.
pub proof fn from_host_is_kept(
    call: &mut PyCall,
    value: &str,
    after: PyCall,
    from_host: Option<&str>,
    to_host: Option<&str>,
)
    requires
        call_ensures(PyCall::set_from_host, (call, value), ()),
    ensures
        after == *final(call) && call_ensures(PyCall::from_host_override, (&after,), from_host)
            ==> opt_str(from_host) == Some(value@),
        after == *final(call) && call_ensures(PyCall::to_host_override, (&after,), to_host)
            ==> opt_str(to_host) == old(call)@.to_host,
{
}

/// The host that is set for the To header overrides the To host, and no other.
pub proof fn to_host_is_kept(
    call: &mut PyCall,
    value: &str,
    after: PyCall,
    from_host: Option<&str>,
    to_host: Option<&str>,
)
    requires
        call_ensures(PyCall::set_to_host, (call, value), ()),
    ensures
        after == *final(call) && call_ensures(PyCall::to_host_override, (&after,), to_host)
            ==> opt_str(to_host) == Some(value@),
        after == *final(call) && call_ensures(PyCall::from_host_override, (&after,), from_host)
            ==> opt_str(from_host) == old(call)@.from_host,
{
}

/// An address that replaces that of the From header has its host override the
/// From host; one that is no address changes nothing.
pub proof fn from_uri_overrides_the_from_host(
    call: &mut PyCall,
    parsed: Result<SipUri, String>,
    outcome: Result<(), ScriptError>,
    after: PyCall,
    from_host: Option<&str>,
)
    requires
        call_ensures(PyCall::set_from_uri, (call, parsed), outcome),
    ensures
        outcome is Ok ==> parsed is Ok,
        outcome is Err ==> final(call)@ == old(call)@,
        outcome is Ok && after == *final(call) && call_ensures(
            PyCall::from_host_override,
            (&after,),
            from_host,
        ) ==> opt_str(from_host) == Some(parsed->Ok_0.host@),
        outcome is Ok ==> final(call)@.to_host == old(call)@.to_host,
{
}

/// An address that replaces that of the To header has its host override the To
/// host; one that is no address changes nothing.
pub proof fn to_uri_overrides_the_to_host(
    call: &mut PyCall,
    parsed: Result<SipUri, String>,
    outcome: Result<(), ScriptError>,
    after: PyCall,
    to_host: Option<&str>,
)
    requires
        call_ensures(PyCall::set_to_uri, (call, parsed), outcome),
    ensures
        outcome is Ok ==> parsed is Ok,
        outcome is Err ==> final(call)@ == old(call)@,
        outcome is Ok && after == *final(call) && call_ensures(
            PyCall::to_host_override,
            (&after,),
            to_host,
        ) ==> opt_str(to_host) == Some(parsed->Ok_0.host@),
        outcome is Ok ==> final(call)@.from_host == old(call)@.from_host,
{
}

/// A contact user that is set is the one that is read, and leaves the contact.
pub proof fn contact_user_is_kept(
    call: &mut PyCall,
    user: &str,
    after: PyCall,
    kept: Option<&str>,
)
    requires
        call_ensures(PyCall::set_contact_user, (call, user), ()),
    ensures
        after == *final(call) && call_ensures(PyCall::contact_user_override, (&after,), kept)
            ==> opt_str(kept) == Some(user@),
        final(call)@ == (CallText { contact_user: final(call)@.contact_user, ..old(call)@ }),
{
}

/// A contact that is set is read as it was written where it is an address, and
/// is refused where it is none.
pub proof fn contact_is_kept(
    call: &mut PyCall,
    uri: &str,
    parsed: Result<SipUri, String>,
    outcome: Result<(), ScriptError>,
    after: PyCall,
    kept: Option<&str>,
)
    requires
        call_ensures(PyCall::set_contact_uri, (call, uri, parsed), outcome),
    ensures
        outcome is Ok <==> parsed is Ok,
        outcome is Ok && after == *final(call) && call_ensures(
            PyCall::contact_override,
            (&after,),
            kept,
        ) ==> opt_str(kept) == Some(uri@),
        final(call)@ == (CallText { contact: final(call)@.contact, ..old(call)@ }),
        outcome is Err ==> final(call)@ == old(call)@,
{
}

/// The user that a call was authenticated as is the one that was set, by either
/// setter and for either reader.
pub proof fn auth_user_is_kept(
    call: &mut PyCall,
    username: String,
    after: PyCall,
    first: Option<&str>,
    second: Option<&str>,
)
    requires
        call_ensures(PyCall::set_auth_user, (call, username), ()) || call_ensures(
            PyCall::py_set_auth_user,
            (call, Some(username)),
            (),
        ),
    ensures
        after == *final(call) && call_ensures(PyCall::get_auth_user, (&after,), first) ==> opt_str(
            first,
        ) == Some(username@),
        after == *final(call) && call_ensures(PyCall::auth_user, (&after,), second) ==> opt_str(
            second,
        ) == Some(username@),
        final(call)@ == (CallText { auth_user: final(call)@.auth_user, ..old(call)@ }),
{
}

/// The carrier that a call is on is the one that was set.
pub proof fn active_route_is_kept(
    call: &mut PyCall,
    route: Route,
    after: PyCall,
    kept: Option<PyRoute>,
)
    requires
        call_ensures(PyCall::set_active_route, (call, route), ()),
    ensures
        after == *final(call) && call_ensures(PyCall::active_route, (&after,), kept) ==> (
        kept matches Some(r) && r@ == route@),
        final(call)@ == (CallText { active_route: final(call)@.active_route, ..old(call)@ }),
{
}

/// The attempts that were made are listed in their order, each as a dict with
/// its carrier, its status, its time and whether it was dialled.
pub proof fn route_attempts_are_listed_in_order(
    call: &mut PyCall,
    attempts: Vec<RouteAttempt>,
    after: PyCall,
    listed: Vec<PyValue>,
)
    requires
        call_ensures(PyCall::set_route_attempts, (call, attempts), ()),
    ensures
        after == *final(call) && call_ensures(PyCall::route_attempts, (&after,), listed) ==> ({
            &&& listed@.len() == attempts@.len()
            &&& forall|i: int|
                0 <= i < attempts@.len() ==> (#[trigger] listed@[i])@ == PyText::Dict(
                    seq![
                        ("carrier_id"@, PyText::Text(attempts@[i].carrier_id@)),
                        ("status"@, PyText::Int(attempts@[i].status as int)),
                        ("elapsed_ms"@, PyText::Int(attempts@[i].elapsed_ms as int)),
                        ("dialed"@, PyText::Bool(attempts@[i].dialed)),
                    ],
                )
        }),
{
}

/// What an online charging reservation came to is told under its own keys.
pub proof fn reservation_is_told_under_its_keys(outcome: RoOutcome, dict: PyValue)
    requires
        call_ensures(RoOutcome::to_dict, (&outcome,), dict),
    ensures
        dict@ == PyText::Dict(
            seq![
                ("authorized"@, PyText::Bool(outcome.authorized)),
                ("result_code"@, told_number(outcome.result_code)),
                ("granted_time"@, told_number(outcome.granted_time)),
                ("session_id"@, told_text(outcome.session_id)),
            ],
        ),
{
    assert(dict@->Dict_0 =~= seq![
        ("authorized"@, PyText::Bool(outcome.authorized)),
        ("result_code"@, told_number(outcome.result_code)),
        ("granted_time"@, told_number(outcome.granted_time)),
        ("session_id"@, told_text(outcome.session_id)),
    ]);
}

/// A call that is rejected is rejected with the code and the reason given, by
/// either name of the operation, and nothing else of it changes.
pub proof fn rejection_carries_its_code(
    call: &mut PyCall,
    code: u16,
    reason: &str,
    after: PyCall,
    action: CallAction,
)
    requires
        call_ensures(PyCall::reject, (call, code, reason), ()) || call_ensures(
            PyCall::set_reject,
            (call, code, reason),
            (),
        ),
    ensures
        after == *final(call) && call_ensures(PyCall::action, (&after,), &action) ==> (
        action matches CallAction::Reject { code: sent, reason: why } && sent == code && why@
            == reason@),
        final(call)@ == (CallText { action: final(call)@.action, ..old(call)@ }),
{
}

/// A REFER that is rejected is rejected with the code and the reason given.
pub proof fn refer_rejection_carries_its_code(
    call: &mut PyCall,
    code: u16,
    reason: &str,
    after: PyCall,
    action: CallAction,
)
    requires
        call_ensures(PyCall::reject_refer, (call, code, reason), ()),
    ensures
        after == *final(call) && call_ensures(PyCall::action, (&after,), &action) ==> (
        action matches CallAction::RejectRefer { code: sent, reason: why } && sent == code && why@
            == reason@),
        final(call)@ == (CallText { action: final(call)@.action, ..old(call)@ }),
{
}

/// A call that is ended is ended, and nothing else of it changes.
pub proof fn terminated_call_is_ended(call: &mut PyCall, after: PyCall, action: CallAction)
    requires
        call_ensures(PyCall::terminate, (call,), ()),
    ensures
        after == *final(call) && call_ensures(PyCall::action, (&after,), &action)
            ==> action is Terminate,
        final(call)@ == (CallText { action: final(call)@.action, ..old(call)@ }),
{
}

/// A state that is set is the one that is read.
pub proof fn state_is_kept(call: &mut PyCall, state: &str, after: PyCall, kept: &str)
    requires
        call_ensures(PyCall::set_state, (call, state), ()),
    ensures
        after == *final(call) && call_ensures(PyCall::state, (&after,), kept) ==> kept@ == state@,
        final(call)@ == (CallText { state: final(call)@.state, ..old(call)@ }),
{
}

/// A call that is to keep its Call-ID keeps it, and is not recorded for that.
pub proof fn call_id_is_kept(call: &mut PyCall, after: PyCall, kept: bool)
    requires
        call_ensures(PyCall::keep_call_id, (call,), ()),
    ensures
        after == *final(call) && call_ensures(PyCall::preserve_call_id, (&after,), kept) ==> kept,
        final(call)@ == (CallText { preserve_call_id: true, ..old(call)@ }),
{
}

/// A call that is to be recorded is marked so, and keeps no Call-ID for that.
pub proof fn recording_is_noted(call: &mut PyCall, after: PyCall, noted: bool)
    requires
        call_ensures(PyCall::set_li_record, (call,), ()),
    ensures
        after == *final(call) && call_ensures(PyCall::li_record, (&after,), noted) ==> noted,
        final(call)@ == (CallText { li_record: true, ..old(call)@ }),
{
}

/// Media that is anchored is anchored by the engine and under the profile given;
/// once released it is anchored no more, and engine and profile stay.
pub proof fn media_is_anchored_as_told(
    handle: &mut PyMediaHandle,
    engine: &str,
    profile: &str,
    after: PyMediaHandle,
    its_engine: &str,
    its_profile: &str,
    anchored: bool,
)
    requires
        call_ensures(PyMediaHandle::anchor, (handle, engine, profile), ()),
    ensures
        after == *final(handle) && call_ensures(PyMediaHandle::engine, (&after,), its_engine)
            ==> its_engine@ == engine@,
        after == *final(handle) && call_ensures(PyMediaHandle::profile_name, (&after,), its_profile)
            ==> its_profile@ == profile@,
        after == *final(handle) && (call_ensures(PyMediaHandle::is_anchored, (&after,), anchored)
            || call_ensures(PyMediaHandle::is_active, (&after,), anchored)) ==> anchored,
{
}

/// Media that is released is anchored no more; its engine and profile stay.
pub proof fn released_media_is_not_anchored(
    handle: &mut PyMediaHandle,
    after: PyMediaHandle,
    its_engine: &str,
    its_profile: &str,
    anchored: bool,
)
    requires
        call_ensures(PyMediaHandle::release, (handle,), ()),
    ensures
        after == *final(handle) && call_ensures(PyMediaHandle::engine, (&after,), its_engine)
            ==> its_engine@ == old(handle)@.engine,
        after == *final(handle) && call_ensures(PyMediaHandle::profile_name, (&after,), its_profile)
            ==> its_profile@ == old(handle)@.profile,
        after == *final(handle) && (call_ensures(PyMediaHandle::is_anchored, (&after,), anchored)
            || call_ensures(PyMediaHandle::is_active, (&after,), anchored)) ==> !anchored,
{
}

/// The flow that a call came over is the one that it was given, and a flow tells
/// the far end as remote and its own as local.
pub proof fn flow_is_kept(call: PyCall, flow: PyFlow, after: PyCall, kept: Option<PyFlow>)
    requires
        call_ensures(PyCall::with_flow, (call, Some(flow)), after),
        call_ensures(PyCall::flow, (&after,), kept),
    ensures
        kept matches Some(f) && f.transport@ == flow.transport@ && f.source_addr == flow.source_addr
            && f.local_addr == flow.local_addr && f.connection_id == flow.connection_id,
{
}

} // verus!
