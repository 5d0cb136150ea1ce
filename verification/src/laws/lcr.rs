//! Laws of least-cost routing.

use crate::call::PyCall;
use crate::error::ErrorText;
use crate::lcr::{
    decision_of, LcrOutcome, LcrRequest, LcrResponse, PyLcr, PyLcrDecision, PyRoute, Route,
};
use crate::pyvalue::{filter_of, opt_items, PyText, PyValue};
use crate::sip::{header_of, header_value, uri_text, SipMessage, StartText};
use crate::text::{opt_str, opt_text, pairs_text};
use vstd::prelude::*;
use vstd::string::*;

verus! {

/// The routing engine is asked about a call as it is: its Call-ID, its caller
/// and its callee each in its place, where it came from, and the number that it
/// dials, which the request line names or else the To header.
pub proof fn routing_request_describes_the_call(
    id: String,
    message: SipMessage,
    source_ip: String,
    transport: String,
    call: PyCall,
    version: String,
    lcr: PyLcr,
    trunk_group: Option<String>,
    attributes: Option<Vec<(PyValue, PyValue)>>,
    request: LcrRequest,
)
    requires
        call_ensures(PyCall::new, (id, message, source_ip, transport), call),
        call_ensures(PyLcr::new, (version,), lcr),
        call_ensures(PyLcr::route, (&lcr, &call, trunk_group, attributes), Ok(request)),
    ensures
        request.version@ == version@,
        request.source.ip@ == source_ip@,
        request.source.transport@ == transport@,
        opt_text(request.source.trunk_group) == opt_text(trunk_group),
        filter_of(opt_items(attributes)) == Ok::<Seq<(Seq<char>, Seq<char>)>, ErrorText>(
            pairs_text(request.attributes@),
        ),
        header_value(message.headers@, "Call-ID"@) matches Some(call_id) ==> request.call_id@
            == call_id,
        header_of(message.headers@, "From"@) matches Some(from) ==> (from.address matches Some(address)
            ==> request.from@ == uri_text(address.uri)),
        header_of(message.headers@, "To"@) matches Some(to) ==> (to.address matches Some(address)
            ==> request.to@ == uri_text(address.uri)),
        message.start_line@ matches StartText::Request { request_uri, .. } ==> (
        request_uri.user matches Some(user) ==> request.dialed_number@ == user),
        message.start_line@ matches StartText::Request { request_uri, .. } ==> (
        request_uri.user is None ==> (header_of(message.headers@, "To"@) matches Some(to) ==> (
        to.address matches Some(address) ==> (address.uri.user matches Some(user)
            ==> request.dialed_number@ == user)))),
{
}

/// The routes of a decision come in the engine's order, and each shows every
/// value of the engine's route in its own place.
pub proof fn decision_shows_the_routes_in_order(
    response: LcrResponse,
    decision: PyLcrDecision,
    routes: Vec<PyRoute>,
    i: int,
    carrier_id: &str,
    gateway_group: Option<&str>,
    next_hop: Option<&str>,
    ruri: Option<&str>,
    tech_prefix: Option<&str>,
    headers: Vec<(String, String)>,
    reroute_causes: Vec<u16>,
    rate: Option<u64>,
    currency: Option<&str>,
    billing_increment: Option<u32>,
    min_duration: Option<u32>,
    timeout_secs: Option<u32>,
)
    requires
        call_ensures(decision_of, (LcrOutcome::Decision(response),), Some(decision)),
        call_ensures(PyLcrDecision::routes, (&decision,), routes),
        0 <= i < routes@.len(),
        call_ensures(PyRoute::carrier_id, (&routes@[i],), carrier_id),
        call_ensures(PyRoute::gateway_group, (&routes@[i],), gateway_group),
        call_ensures(PyRoute::next_hop, (&routes@[i],), next_hop),
        call_ensures(PyRoute::ruri, (&routes@[i],), ruri),
        call_ensures(PyRoute::tech_prefix, (&routes@[i],), tech_prefix),
        call_ensures(PyRoute::headers, (&routes@[i],), headers),
        call_ensures(PyRoute::reroute_causes, (&routes@[i],), reroute_causes),
        call_ensures(PyRoute::rate, (&routes@[i],), rate),
        call_ensures(PyRoute::currency, (&routes@[i],), currency),
        call_ensures(PyRoute::billing_increment, (&routes@[i],), billing_increment),
        call_ensures(PyRoute::min_duration, (&routes@[i],), min_duration),
        call_ensures(PyRoute::timeout_secs, (&routes@[i],), timeout_secs),
    ensures
        routes@.len() == response.routes@.len(),
        carrier_id@ == response.routes@[i].carrier_id@,
        opt_str(gateway_group) == opt_text(response.routes@[i].gateway_group),
        opt_str(next_hop) == opt_text(response.routes@[i].next_hop),
        opt_str(ruri) == opt_text(response.routes@[i].ruri),
        opt_str(tech_prefix) == opt_text(response.routes@[i].tech_prefix),
        pairs_text(headers@) == pairs_text(response.routes@[i].headers@),
        reroute_causes@ == response.routes@[i].reroute_causes@,
        rate == response.routes@[i].rate,
        opt_str(currency) == opt_text(response.routes@[i].currency),
        billing_increment == response.routes@[i].billing_increment,
        min_duration == response.routes@[i].min_duration,
        timeout_secs == response.routes@[i].timeout_secs,
{
    assert(routes@[i]@ == response.routes@[i]@);
}

/// A rejection that the engine decides is told with its code as the code and its
/// reason as the reason; without one there is none.
pub proof fn decision_shows_the_rejection(
    response: LcrResponse,
    decision: PyLcrDecision,
    told: Option<PyValue>,
)
    requires
        call_ensures(decision_of, (LcrOutcome::Decision(response),), Some(decision)),
        call_ensures(PyLcrDecision::reject, (&decision,), told),
    ensures
        match response.reject {
            Some(reject) => told matches Some(value) && value@ == PyText::Dict(
                seq![
                    ("code"@, PyText::Int(reject.code as int)),
                    ("reason"@, PyText::Text(reject.reason@)),
                ],
            ),
            None => told is None,
        },
{
}

/// An engine that cannot be reached decides nothing; one that can decides what
/// it answered.
pub proof fn silence_is_no_decision(outcome: LcrOutcome, decision: Option<PyLcrDecision>)
    requires
        call_ensures(decision_of, (outcome,), decision),
    ensures
        decision is None <==> outcome is Unavailable,
{
}

/// A route can be used exactly when it names a gateway group, a next hop or an
/// address; one that is made of an address names that address and nothing else.
pub proof fn route_needs_somewhere_to_go(uri: String, made: Route, route: Route, routable: bool)
    requires
        call_ensures(Route::to_uri, (uri,), made),
        call_ensures(Route::is_routable, (&route,), routable),
    ensures
        routable <==> route.gateway_group is Some || route.next_hop is Some || route.ruri is Some,
        opt_text(made.ruri) == Some(uri@),
        made.next_hop is None,
        made.gateway_group is None,
        made.tech_prefix is None,
        made.carrier_id@ == ""@,
        made.headers@.len() == 0,
{
    assert(pairs_text(made.headers@).len() == made.headers@.len());
}

} // verus!
