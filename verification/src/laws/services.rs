//! Laws of the smaller namespaces: call control, cache, filter criteria, metrics
//! and the names that a script sees.

use crate::b2bua::{
    BridgeParams, CallerIdPresentation, ControlError, OriginateArgs, OriginateMedia,
    OriginateParams, PeerHangupPolicy, PyB2buaControl,
};
use crate::cache::{CacheCall, CacheRequest, PyCacheNamespace};
use crate::call::action::ReferTo;
use crate::error::{value_error, ScriptError};
use crate::isc::{parse_session_case, IfcMatch, PyIsc, SessionCase};
use crate::laws::call::replaces_as_written;
use crate::laws::pyvalue::told_text;
use crate::metrics::{
    series_carries_every_label, PyCounter, PyCounterChild, PyGauge, PyHistogram,
    PyMetricsNamespace, Series,
};
use crate::namespaces::{attributes_text, Attribute, Singletons, Slot, UserNamespaces};
use crate::pyvalue::{entries_text, PyText, PyValue};
use crate::text::{assoc, lower, opt_text, pairs_text, starts_with, texts};
use vstd::prelude::*;
use vstd::string::*;

verus! {

/// A call that is placed carries what was asked for, each value in its own
/// place, with the media that was chosen: the caller's own offer, or an anchor
/// with its profile and stream.
pub proof fn placed_call_carries_what_was_asked(
    control: PyB2buaControl,
    args: OriginateArgs,
    params: OriginateParams,
)
    requires
        call_ensures(PyB2buaControl::originate, (&control, args), Ok(params)),
    ensures
        params.to@ == args.to@,
        opt_text(params.to_display) == opt_text(args.to_display),
        opt_text(params.from) == opt_text(args.from_uri),
        opt_text(params.from_display) == opt_text(args.from_display),
        opt_text(params.next_hop) == opt_text(args.next_hop),
        opt_text(params.p_asserted_identity) == opt_text(args.p_asserted_identity),
        params.timeout_secs == args.timeout,
        match args.headers {
            Some(headers) => pairs_text(params.headers@) == pairs_text(headers@),
            None => params.headers@.len() == 0,
        },
        match params.privacy {
            Some(CallerIdPresentation::Allowed) => opt_text(args.privacy) == Some("allowed"@),
            Some(CallerIdPresentation::Restricted) => opt_text(args.privacy) == Some(
                "restricted"@,
            ),
            None => args.privacy is None,
        },
        match params.media {
            OriginateMedia::Offer(sdp) => opt_text(args.sdp) == Some(sdp@) && !args.media,
            OriginateMedia::Anchor { profile, ws_uri } => {
                &&& args.media && args.sdp is None
                &&& opt_text(ws_uri) == opt_text(args.ws_uri)
                &&& match args.profile {
                    Some(named) => profile@ == named@,
                    None => profile@ == "rtp_passthrough"@,
                }
            },
        },
{
    assert(pairs_text(params.headers@).len() == params.headers@.len());
}

/// Two calls that are bridged are named as anchor and peer in that order, with
/// the policy that was named.
pub proof fn bridge_names_anchor_and_peer(
    control: PyB2buaControl,
    call_id: &str,
    with_call_id: &str,
    on_peer_hangup: &str,
    outcome: Result<BridgeParams, ScriptError>,
)
    requires
        call_ensures(
            PyB2buaControl::bridge,
            (&control, call_id, with_call_id, on_peer_hangup),
            outcome,
        ),
    ensures
        outcome matches Ok(params) ==> {
            &&& params.anchor_sip_call_id@ == call_id@
            &&& params.peer_sip_call_id@ == with_call_id@
            &&& on_peer_hangup@ == match params.on_peer_hangup {
                PeerHangupPolicy::Hangup => "hangup"@,
                PeerHangupPolicy::Hold => "hold"@,
            }
        },
        outcome is Ok <==> on_peer_hangup@ == "hangup"@ || on_peer_hangup@ == "hold"@,
{
}

/// A call that is referred by its control is referred to the target given, with
/// the dialog that the dict describes.
pub proof fn controlled_refer_carries_its_target(
    control: PyB2buaControl,
    target: &str,
    replaces: Option<&Vec<(String, PyValue)>>,
    refer_to: ReferTo,
)
    requires
        call_ensures(PyB2buaControl::refer, (&control, target, replaces), Ok(refer_to)),
    ensures
        refer_to.uri@ == target@,
        match replaces {
            Some(dict) => refer_to.replaces matches Some(found) && replaces_as_written(
                entries_text(dict@),
                found,
            ),
            None => refer_to.replaces is None,
        },
{
}

/// What a call control reports is passed on: the identifier of a placed call,
/// and of a failure its reason, or its code before its message.
pub proof fn control_outcome_is_passed_on(
    control: PyB2buaControl,
    placed: Result<String, String>,
    told: Result<String, ScriptError>,
    done: Result<(), ControlError>,
    reported: Result<bool, ScriptError>,
)
    requires
        call_ensures(PyB2buaControl::originated, (&control, placed), told),
        call_ensures(PyB2buaControl::controlled, (&control, done), reported),
    ensures
        match placed {
            Ok(call_id) => told matches Ok(id) && id@ == call_id@,
            Err(reason) => told matches Err(e) && e@ == value_error(reason@),
        },
        match done {
            Ok(_) => reported matches Ok(true),
            Err(error) => reported matches Err(e) && e@ == value_error(
                error.code@ + ": "@ + error.message@,
            ),
        },
{
}

/// Whether a key belongs to the library itself.
pub open spec fn belongs_to_the_library(key: Seq<char>) -> bool {
    starts_with(key, "siphon:"@)
}

/// A value that is stored goes to the cache that was named, under the key and
/// with the value and the lifetime given, unless the key is reserved.
pub proof fn store_goes_to_its_cache(
    caches: PyCacheNamespace,
    name: String,
    key: String,
    value: String,
    ttl: Option<u64>,
    outcome: Result<CacheRequest, ScriptError>,
)
    requires
        call_ensures(PyCacheNamespace::store, (&caches, name, key, value, ttl), outcome),
    ensures
        outcome matches Ok(request) ==> {
            &&& request.cache@ == name@
            &&& request.call matches CacheCall::Store { key: k, value: v, ttl: t }
            &&& k@ == key@
            &&& v@ == value@
            &&& t == ttl
        },
        outcome is Err <==> belongs_to_the_library(key@),
{
}

/// A list entry goes to the cache that was named, under the key and with the
/// item given, unless the key is reserved.
pub proof fn push_goes_to_its_list(
    caches: PyCacheNamespace,
    name: String,
    key: String,
    item: String,
    outcome: Result<CacheRequest, ScriptError>,
)
    requires
        call_ensures(PyCacheNamespace::list_push, (&caches, name, key, item), outcome),
    ensures
        outcome matches Ok(request) ==> {
            &&& request.cache@ == name@
            &&& request.call matches CacheCall::ListPush { key: k, item: i }
            &&& k@ == key@
            &&& i@ == item@
        },
        outcome is Err <==> belongs_to_the_library(key@),
{
}

/// A lifetime is set in the cache that was named, on the key and to the length
/// given, unless the key is reserved.
pub proof fn expiry_concerns_its_key(
    caches: PyCacheNamespace,
    name: String,
    key: String,
    ttl: u64,
    outcome: Result<CacheRequest, ScriptError>,
)
    requires
        call_ensures(PyCacheNamespace::expire, (&caches, name, key, ttl), outcome),
    ensures
        outcome matches Ok(request) ==> {
            &&& request.cache@ == name@
            &&& request.call matches CacheCall::Expire { key: k, ttl: t }
            &&& k@ == key@
            &&& t == ttl
        },
        outcome is Err <==> belongs_to_the_library(key@),
{
}

/// A read asks the cache that was named for what it was told to: the value, the
/// whole list, the length of the list, or whether the key is there; a deletion
/// deletes the key. A reserved key is refused by all.
pub proof fn reads_ask_for_their_key(
    caches: PyCacheNamespace,
    name: String,
    key: String,
    fetched: Result<CacheRequest, ScriptError>,
    deleted: Result<CacheRequest, ScriptError>,
    popped: Result<CacheRequest, ScriptError>,
    measured: Result<CacheRequest, ScriptError>,
    found: Result<CacheRequest, ScriptError>,
)
    requires
        call_ensures(PyCacheNamespace::fetch, (&caches, name, key), fetched),
        call_ensures(PyCacheNamespace::delete, (&caches, name, key), deleted),
        call_ensures(PyCacheNamespace::list_pop_all, (&caches, name, key), popped),
        call_ensures(PyCacheNamespace::list_len, (&caches, name, key), measured),
        call_ensures(PyCacheNamespace::has_key, (&caches, name, key), found),
    ensures
        fetched matches Ok(r) ==> r.cache@ == name@ && r.call == (CacheCall::Fetch { key }),
        deleted matches Ok(r) ==> r.cache@ == name@ && r.call == (CacheCall::Delete { key }),
        popped matches Ok(r) ==> r.cache@ == name@ && r.call == (CacheCall::ListPopAll { key }),
        measured matches Ok(r) ==> r.cache@ == name@ && r.call == (CacheCall::ListLen { key }),
        found matches Ok(r) ==> r.cache@ == name@ && r.call == (CacheCall::Exists { key }),
        fetched is Err <==> belongs_to_the_library(key@),
        deleted is Err <==> belongs_to_the_library(key@),
        popped is Err <==> belongs_to_the_library(key@),
        measured is Err <==> belongs_to_the_library(key@),
        found is Err <==> belongs_to_the_library(key@),
{
}

/// The lists under a prefix are counted in the cache that was named, unless the
/// prefix is empty or reserved.
pub proof fn prefix_must_not_be_empty(
    caches: PyCacheNamespace,
    name: String,
    prefix: String,
    outcome: Result<CacheRequest, ScriptError>,
)
    requires
        call_ensures(PyCacheNamespace::list_len_sum, (&caches, name, prefix), outcome),
    ensures
        outcome matches Ok(r) ==> r.cache@ == name@ && r.call == (CacheCall::ListLenSum { prefix }),
        outcome is Err <==> belongs_to_the_library(prefix@) || prefix@.len() == 0,
{
}

/// A session case goes by its name, long or short, in any case.
pub proof fn session_case_goes_by_its_name(value: &str, case: Option<SessionCase>)
    requires
        call_ensures(parse_session_case, (value,), case),
    ensures
        match case {
            Some(SessionCase::Originating) => lower(value@) == "originating"@ || lower(value@)
                == "orig"@,
            Some(SessionCase::Terminating) => lower(value@) == "terminating"@ || lower(value@)
                == "term"@,
            Some(SessionCase::OriginatingUnregistered) => lower(value@)
                == "originating_unregistered"@ || lower(value@) == "orig_unreg"@,
            Some(SessionCase::TerminatingUnregistered) => lower(value@)
                == "terminating_unregistered"@ || lower(value@) == "term_unreg"@,
            None => true,
        },
        case is None <==> !(lower(value@) == "originating"@ || lower(value@) == "orig"@ || lower(
            value@,
        ) == "terminating"@ || lower(value@) == "term"@ || lower(value@)
            == "originating_unregistered"@ || lower(value@) == "orig_unreg"@ || lower(value@)
            == "terminating_unregistered"@ || lower(value@) == "term_unreg"@),
{
}

/// The filter criteria that match are told in their order, each as a dict with
/// its server, its default handling, its service information and its priority.
pub proof fn matches_are_told_in_order(
    isc: PyIsc,
    session_case: &str,
    matched: Vec<IfcMatch>,
    told: Vec<PyValue>,
)
    requires
        call_ensures(PyIsc::evaluate, (&isc, session_case, &matched), Ok(told)),
    ensures
        told@.len() == matched@.len(),
        forall|i: int|
            0 <= i < matched@.len() ==> (#[trigger] told@[i])@ == PyText::Dict(
                seq![
                    ("server_name"@, PyText::Text(matched@[i].server_name@)),
                    ("default_handling"@, PyText::Int(matched@[i].default_handling as int)),
                    ("service_info"@, told_text(matched@[i].service_info)),
                    ("priority"@, PyText::Int(matched@[i].priority as int)),
                ],
            ),
{
    assert forall|i: int| 0 <= i < matched@.len() implies (#[trigger] told@[i])@ == PyText::Dict(
        seq![
            ("server_name"@, PyText::Text(matched@[i].server_name@)),
            ("default_handling"@, PyText::Int(matched@[i].default_handling as int)),
            ("service_info"@, told_text(matched@[i].service_info)),
            ("priority"@, PyText::Int(matched@[i].priority as int)),
        ],
    ) by {
        assert(told@[i]@->Dict_0 =~= seq![
            ("server_name"@, PyText::Text(matched@[i].server_name@)),
            ("default_handling"@, PyText::Int(matched@[i].default_handling as int)),
            ("service_info"@, told_text(matched@[i].service_info)),
            ("priority"@, PyText::Int(matched@[i].priority as int)),
        ]);
    }
}

/// A counter with labels counts the series of its own name whose labels are its
/// names in their order, each with the value that the script gave for it.
pub proof fn labelled_series_carries_each_value(
    metrics: PyMetricsNamespace,
    name: &str,
    labels: Vec<String>,
    counter: PyCounter,
    given: Vec<(String, String)>,
    child: PyCounterChild,
    series: Series,
    i: int,
)
    requires
        call_ensures(PyMetricsNamespace::counter, (&metrics, name, Some(labels), Ok(())), Ok(counter)),
        call_ensures(PyCounter::labels, (&counter, Some(&given)), Ok(child)),
        call_ensures(PyCounterChild::inc, (&child,), series),
        0 <= i < labels@.len(),
    ensures
        series.name@ == name@,
        series.labels@.len() == labels@.len(),
        series.labels@[i].0@ == labels@[i]@,
        assoc(pairs_text(given@), labels@[i]@) == Some(series.labels@[i].1@),
{
    let names = texts(labels@);
    assert(names.len() == labels@.len());
    assert(names[i] == labels@[i]@);
    series_carries_every_label(names, pairs_text(given@), i);
    assert(pairs_text(series.labels@).len() == series.labels@.len());
    assert(pairs_text(series.labels@)[i] == (series.labels@[i].0@, series.labels@[i].1@));
}

/// A metric without labels is the bare series of its own name.
pub proof fn bare_series_has_the_metric_name(
    metrics: PyMetricsNamespace,
    name: &str,
    counter: PyCounter,
    gauge: PyGauge,
    histogram: PyHistogram,
    counted: Series,
    raised: Series,
    lowered: Series,
    placed: Series,
    observed: Series,
)
    requires
        call_ensures(PyMetricsNamespace::counter, (&metrics, name, None, Ok(())), Ok(counter)),
        call_ensures(PyMetricsNamespace::gauge, (&metrics, name, None, Ok(())), Ok(gauge)),
        call_ensures(PyMetricsNamespace::histogram, (&metrics, name, None, Ok(())), Ok(histogram)),
        call_ensures(PyCounter::inc, (&counter,), Ok(counted)),
        call_ensures(PyGauge::inc, (&gauge,), Ok(raised)),
        call_ensures(PyGauge::dec, (&gauge,), Ok(lowered)),
        call_ensures(PyGauge::set, (&gauge,), Ok(placed)),
        call_ensures(PyHistogram::observe, (&histogram,), Ok(observed)),
    ensures
        counted.name@ == name@ && counted.labels@.len() == 0,
        raised.name@ == name@ && raised.labels@.len() == 0,
        lowered.name@ == name@ && lowered.labels@.len() == 0,
        placed.name@ == name@ && placed.labels@.len() == 0,
        observed.name@ == name@ && observed.labels@.len() == 0,
{
    assert(pairs_text(counted.labels@).len() == counted.labels@.len());
    assert(pairs_text(raised.labels@).len() == raised.labels@.len());
    assert(pairs_text(lowered.labels@).len() == lowered.labels@.len());
    assert(pairs_text(placed.labels@).len() == placed.labels@.len());
    assert(pairs_text(observed.labels@).len() == observed.labels@.len());
}

/// The name under which a script finds a slot.
pub open spec fn name_of_slot(slot: Slot) -> Seq<char> {
    match slot {
        Slot::Auth => "auth"@,
        Slot::Registrar => "registrar"@,
        Slot::Log => "log"@,
        Slot::Cache => "cache"@,
        Slot::ProxyUtils => "_utils"@,
        Slot::SubscribeState => "subscribe_state"@,
        Slot::RtpEngine => "rtpengine"@,
        Slot::Gateway => "gateway"@,
        Slot::Cdr => "cdr"@,
        Slot::Registration => "registration"@,
        Slot::Li => "li"@,
        Slot::Diameter => "diameter"@,
        Slot::Presence => "presence"@,
        Slot::Metrics => "metrics"@,
        Slot::Sdp => "sdp"@,
        Slot::Qos => "qos"@,
        Slot::Timer => "timer"@,
        Slot::Isc => "isc"@,
        Slot::Sbi => "sbi"@,
        Slot::Ipsec => "ipsec"@,
        Slot::Stir => "stir"@,
    }
}

/// A script sees every object under its own name: first those of the library in
/// the order in which they were set, then those of the user in theirs.
pub proof fn script_sees_each_object_under_its_name(
    singletons: Singletons,
    users: UserNamespaces,
    seen: Vec<Attribute>,
)
    requires
        call_ensures(Singletons::attributes, (&singletons, &users), seen),
    ensures
        seen@.len() == singletons@.len() + users@.len(),
        forall|i: int|
            0 <= i < singletons@.len() ==> (#[trigger] seen@[i]).name@ == name_of_slot(
                singletons@[i].0,
            ) && seen@[i].object == singletons@[i].1 && seen@[i].on_proxy == (singletons@[i].0
                == Slot::ProxyUtils || singletons@[i].0 == Slot::SubscribeState),
        forall|i: int|
            0 <= i < users@.len() ==> (#[trigger] users@[i]).0 == seen@[singletons@.len() + i].name@
                && seen@[singletons@.len() + i].object == users@[i].1 && !seen@[singletons@.len()
                + i].on_proxy,
{
    let all = attributes_text(seen@);
    assert(all.len() == seen@.len());
    assert forall|i: int| 0 <= i < singletons@.len() implies (#[trigger] seen@[i]).name@
        == name_of_slot(singletons@[i].0) && seen@[i].object == singletons@[i].1
        && seen@[i].on_proxy == (singletons@[i].0 == Slot::ProxyUtils || singletons@[i].0
        == Slot::SubscribeState) by {
        assert(all[i] == seen@[i]@);
    }
    assert forall|i: int| 0 <= i < users@.len() implies (#[trigger] users@[i]).0
        == seen@[singletons@.len() + i].name@ && seen@[singletons@.len() + i].object == users@[i].1
        && !seen@[singletons@.len() + i].on_proxy by {
        assert(all[singletons@.len() + i] == seen@[singletons@.len() + i]@);
    }
}

} // verus!
