//! Least-cost routing: the carriers that a routing decision names, and what a
//! script sees of them.

use crate::call::{lcr_request_of, PyCall};
use crate::error::{ErrorText, ScriptError};
use crate::pyvalue::{filter_of, opt_items, to_string_map, PyText, PyValue};
use crate::sip::copy_opt;
use crate::text::{
    copy_pairs, debug_opt, debug_opt_text, debug_quoted, decimal, decimal_text, opt_slice, opt_str,
    opt_text, pairs_text, quote_debug, truth, truth_text,
};
use vstd::prelude::*;
use vstd::string::*;

verus! {

/// One carrier attempt. `rate` is the bit pattern of the price per minute.
#[derive(Debug, PartialEq)]
pub struct Route {
    pub carrier_id: String,
    pub gateway_group: Option<String>,
    pub next_hop: Option<String>,
    pub ruri: Option<String>,
    pub tech_prefix: Option<String>,
    pub headers: Vec<(String, String)>,
    pub reroute_causes: Vec<u16>,
    pub rate: Option<u64>,
    pub currency: Option<String>,
    pub billing_increment: Option<u32>,
    pub min_duration: Option<u32>,
    pub timeout_secs: Option<u32>,
}

/// A carrier attempt as mathematical data.
pub struct RouteText {
    pub carrier_id: Seq<char>,
    pub gateway_group: Option<Seq<char>>,
    pub next_hop: Option<Seq<char>>,
    pub ruri: Option<Seq<char>>,
    pub tech_prefix: Option<Seq<char>>,
    pub headers: Seq<(Seq<char>, Seq<char>)>,
    pub reroute_causes: Seq<u16>,
    pub rate: Option<u64>,
    pub currency: Option<Seq<char>>,
    pub billing_increment: Option<u32>,
    pub min_duration: Option<u32>,
    pub timeout_secs: Option<u32>,
}

impl View for Route {
    type V = RouteText;

    open spec fn view(&self) -> RouteText {
        RouteText {
            carrier_id: self.carrier_id@,
            gateway_group: opt_text(self.gateway_group),
            next_hop: opt_text(self.next_hop),
            ruri: opt_text(self.ruri),
            tech_prefix: opt_text(self.tech_prefix),
            headers: pairs_text(self.headers@),
            reroute_causes: self.reroute_causes@,
            rate: self.rate,
            currency: opt_text(self.currency),
            billing_increment: self.billing_increment,
            min_duration: self.min_duration,
            timeout_secs: self.timeout_secs,
        }
    }
}

/// The carriers of a list.
pub open spec fn routes_text(v: Seq<Route>) -> Seq<RouteText> {
    Seq::new(v.len(), |i: int| v[i]@)
}

/// A carrier that is reached by its request URI alone.
pub open spec fn route_to(uri: Seq<char>) -> RouteText {
    RouteText {
        carrier_id: ""@,
        gateway_group: None,
        next_hop: None,
        ruri: Some(uri),
        tech_prefix: None,
        headers: Seq::empty(),
        reroute_causes: Seq::empty(),
        rate: None,
        currency: None,
        billing_increment: None,
        min_duration: None,
        timeout_secs: None,
    }
}

/// A carrier can be dialed when it names a gateway group, a next hop or a
/// request URI.
pub open spec fn routable(r: RouteText) -> bool {
    r.gateway_group is Some || r.next_hop is Some || r.ruri is Some
}

impl Route {
    /// A carrier that is reached by its request URI alone.
    pub fn to_uri(uri: String) -> (r: Self)
        ensures
            r@ == route_to(uri@),
    {
        let r = Route {
            carrier_id: "".to_owned(),
            gateway_group: None,
            next_hop: None,
            ruri: Some(uri),
            tech_prefix: None,
            headers: Vec::new(),
            reroute_causes: Vec::new(),
            rate: None,
            currency: None,
            billing_increment: None,
            min_duration: None,
            timeout_secs: None,
        };
        assert(r@.headers =~= Seq::<(Seq<char>, Seq<char>)>::empty());
        r
    }

    pub fn copy(&self) -> (r: Self)
        ensures
            r@ == self@,
    {
        let mut causes: Vec<u16> = Vec::new();
        causes.extend_from_slice(self.reroute_causes.as_slice());
        assert(causes@ =~= self.reroute_causes@);
        Route {
            carrier_id: self.carrier_id.clone(),
            gateway_group: copy_opt(&self.gateway_group),
            next_hop: copy_opt(&self.next_hop),
            ruri: copy_opt(&self.ruri),
            tech_prefix: copy_opt(&self.tech_prefix),
            headers: copy_pairs(&self.headers),
            reroute_causes: causes,
            rate: self.rate,
            currency: copy_opt(&self.currency),
            billing_increment: self.billing_increment,
            min_duration: self.min_duration,
            timeout_secs: self.timeout_secs,
        }
    }

    /// Whether the carrier names a gateway group, a next hop or a request URI.
    pub fn is_routable(&self) -> (r: bool)
        ensures
            r == routable(self@),
    {
        self.gateway_group.is_some() || self.next_hop.is_some() || self.ruri.is_some()
    }
}

/// A copy of a list of carriers.
pub fn copy_routes(v: &Vec<Route>) -> (r: Vec<Route>)
    ensures
        routes_text(r@) == routes_text(v@),
{
    let mut out: Vec<Route> = Vec::new();
    let mut i: usize = 0;
    while i < v.len()
        invariant
            i <= v@.len(),
            routes_text(out@) == routes_text(v@).take(i as int),
        decreases v@.len() - i,
    {
        let ghost before = out@;
        out.push(v[i].copy());
        assert(routes_text(out@) =~= routes_text(before).push(v@[i as int]@));
        assert(routes_text(v@).take(i + 1) =~= routes_text(v@).take(i as int).push(v@[i as int]@));
        i += 1;
    }
    assert(routes_text(v@).take(v@.len() as int) =~= routes_text(v@));
    out
}

/// The read-only view of a carrier that a script gets.
#[derive(Debug, PartialEq)]
pub struct PyRoute {
    inner: Route,
}

impl View for PyRoute {
    type V = RouteText;

    closed spec fn view(&self) -> RouteText {
        self.inner@
    }
}

impl PyRoute {
    pub fn from_route(route: Route) -> (r: Self)
        ensures
            r@ == route@,
    {
        PyRoute { inner: route }
    }

    pub fn inner(&self) -> (r: &Route)
        ensures
            r@ == self@,
    {
        &self.inner
    }

    pub fn carrier_id(&self) -> (r: &str)
        ensures
            r@ == self@.carrier_id,
    {
        self.inner.carrier_id.as_str()
    }

    pub fn gateway_group(&self) -> (r: Option<&str>)
        ensures
            opt_str(r) == self@.gateway_group,
    {
        opt_slice(&self.inner.gateway_group)
    }

    pub fn next_hop(&self) -> (r: Option<&str>)
        ensures
            opt_str(r) == self@.next_hop,
    {
        opt_slice(&self.inner.next_hop)
    }

    pub fn ruri(&self) -> (r: Option<&str>)
        ensures
            opt_str(r) == self@.ruri,
    {
        opt_slice(&self.inner.ruri)
    }

    pub fn tech_prefix(&self) -> (r: Option<&str>)
        ensures
            opt_str(r) == self@.tech_prefix,
    {
        opt_slice(&self.inner.tech_prefix)
    }

    pub fn headers(&self) -> (r: Vec<(String, String)>)
        ensures
            pairs_text(r@) == self@.headers,
    {
        copy_pairs(&self.inner.headers)
    }

    pub fn reroute_causes(&self) -> (r: Vec<u16>)
        ensures
            r@ == self@.reroute_causes,
    {
        self.inner.copy().reroute_causes
    }

    /// The bit pattern of the price per minute.
    pub fn rate(&self) -> (r: Option<u64>)
        ensures
            r == self@.rate,
    {
        self.inner.rate
    }

    pub fn currency(&self) -> (r: Option<&str>)
        ensures
            opt_str(r) == self@.currency,
    {
        opt_slice(&self.inner.currency)
    }

    pub fn billing_increment(&self) -> (r: Option<u32>)
        ensures
            r == self@.billing_increment,
    {
        self.inner.billing_increment
    }

    pub fn min_duration(&self) -> (r: Option<u32>)
        ensures
            r == self@.min_duration,
    {
        self.inner.min_duration
    }

    pub fn timeout_secs(&self) -> (r: Option<u32>)
        ensures
            r == self@.timeout_secs,
    {
        self.inner.timeout_secs
    }

    /// Whether the carrier names a gateway group, a next hop or a request URI.
    pub fn is_routable(&self) -> (r: bool)
        ensures
            r == routable(self@),
    {
        self.inner.is_routable()
    }

    /// The carrier for a log line. `rate` is the price as it is to be shown.
    pub fn __repr__(&self, rate: &str) -> (r: String)
        ensures
            r@ == "Route(carrier_id="@ + debug_quoted(self@.carrier_id) + ", gateway_group="@
                + debug_opt(self@.gateway_group) + ", next_hop="@ + debug_opt(self@.next_hop)
                + ", rate="@ + rate@ + ")"@,
    {
        "Route(carrier_id=".to_owned().concat(&quote_debug(&self.inner.carrier_id)).concat(
            ", gateway_group=",
        ).concat(&debug_opt_text(&self.inner.gateway_group)).concat(", next_hop=").concat(
            &debug_opt_text(&self.inner.next_hop),
        ).concat(", rate=").concat(rate).concat(")")
    }
}

/// A refusal that the routing service decided on.
#[derive(Debug, PartialEq)]
pub struct LcrReject {
    pub code: u16,
    pub reason: String,
}

/// The answer of a routing service.
#[derive(Debug, PartialEq)]
pub struct LcrResponse {
    pub routes: Vec<Route>,
    pub reject: Option<LcrReject>,
}

/// A decision as mathematical data.
pub struct DecisionText {
    pub routes: Seq<RouteText>,
    pub reject: Option<(u16, Seq<char>)>,
}

impl View for LcrResponse {
    type V = DecisionText;

    open spec fn view(&self) -> DecisionText {
        DecisionText {
            routes: routes_text(self.routes@),
            reject: match self.reject {
                Some(reject) => Some((reject.code, reject.reason@)),
                None => None,
            },
        }
    }
}

/// Where a call came from, as a routing service is told.
#[derive(Debug, PartialEq)]
pub struct LcrSource {
    pub ip: String,
    pub trunk_group: Option<String>,
    pub transport: String,
}

/// What a routing service is asked with.
#[derive(Debug, PartialEq)]
pub struct LcrRequest {
    pub version: String,
    pub call_id: String,
    pub from: String,
    pub to: String,
    pub dialed_number: String,
    pub source: LcrSource,
    pub attributes: Vec<(String, String)>,
}

/// A routing request as mathematical data.
pub struct LcrRequestText {
    pub version: Seq<char>,
    pub call_id: Seq<char>,
    pub from: Seq<char>,
    pub to: Seq<char>,
    pub dialed_number: Seq<char>,
    pub ip: Seq<char>,
    pub trunk_group: Option<Seq<char>>,
    pub transport: Seq<char>,
    pub attributes: Seq<(Seq<char>, Seq<char>)>,
}

impl View for LcrRequest {
    type V = LcrRequestText;

    open spec fn view(&self) -> LcrRequestText {
        LcrRequestText {
            version: self.version@,
            call_id: self.call_id@,
            from: self.from@,
            to: self.to@,
            dialed_number: self.dialed_number@,
            ip: self.source.ip@,
            trunk_group: opt_text(self.source.trunk_group),
            transport: self.source.transport@,
            attributes: pairs_text(self.attributes@),
        }
    }
}

/// What came of a routing request.
pub enum LcrOutcome {
    Decision(LcrResponse),
    Unavailable,
}

/// The ordered decision that a script gets.
#[derive(Debug, PartialEq)]
pub struct PyLcrDecision {
    inner: LcrResponse,
}

impl View for PyLcrDecision {
    type V = DecisionText;

    closed spec fn view(&self) -> DecisionText {
        self.inner@
    }
}

impl PyLcrDecision {
    pub fn from_response(response: LcrResponse) -> (r: Self)
        ensures
            r@ == response@,
    {
        PyLcrDecision { inner: response }
    }

    /// The carriers, most preferred first.
    pub fn routes(&self) -> (r: Vec<PyRoute>)
        ensures
            r@.len() == self@.routes.len(),
            forall|i: int| 0 <= i < r@.len() ==> (#[trigger] r@[i])@ == self@.routes[i],
    {
        let mut out: Vec<PyRoute> = Vec::new();
        let mut i: usize = 0;
        while i < self.inner.routes.len()
            invariant
                i <= self.inner.routes@.len(),
                out@.len() == i,
                self@ == self.inner@,
                forall|k: int| 0 <= k < i ==> (#[trigger] out@[k])@ == self@.routes[k],
            decreases self.inner.routes@.len() - i,
        {
            out.push(PyRoute::from_route(self.inner.routes[i].copy()));
            i += 1;
        }
        out
    }

    /// The refusal as a dict with `code` and `reason`, where there is one.
    pub fn reject(&self) -> (r: Option<PyValue>)
        ensures
            match r {
                Some(value) => self@.reject matches Some((code, reason)) && value@ == PyText::Dict(
                    seq![
                        ("code"@, PyText::Int(code as int)),
                        ("reason"@, PyText::Text(reason)),
                    ],
                ),
                None => self@.reject is None,
            },
    {
        match &self.inner.reject {
            Some(reject) => {
                let entries: Vec<(String, PyValue)> = vec![
                    ("code".to_owned(), PyValue::Int(reject.code as i128)),
                    ("reason".to_owned(), PyValue::text(&reject.reason)),
                ];
                let value = PyValue::dict(entries);
                assert(crate::pyvalue::entries_text(entries@) =~= seq![
                    ("code"@, PyText::Int(reject.code as int)),
                    ("reason"@, PyText::Text(reject.reason@)),
                ]);
                Some(value)
            },
            None => None,
        }
    }

    pub fn __repr__(&self) -> (r: String)
        ensures
            r@ == "LcrDecision(routes="@ + decimal(self@.routes.len()) + ", reject="@ + truth(
                self@.reject is Some,
            ) + ")"@,
    {
        "LcrDecision(routes=".to_owned().concat(
            &decimal_text(self.inner.routes.len() as u64),
        ).concat(", reject=").concat(&truth_text(self.inner.reject.is_some())).concat(")")
    }
}

/// What a script gets of a routing request: the decision, or nothing where the
/// service could not be asked.
pub fn decision_of(outcome: LcrOutcome) -> (r: Option<PyLcrDecision>)
    ensures
        match r {
            Some(decision) => outcome matches LcrOutcome::Decision(response) && decision@
                == response@,
            None => outcome is Unavailable,
        },
{
    match outcome {
        LcrOutcome::Decision(response) => Some(PyLcrDecision::from_response(response)),
        LcrOutcome::Unavailable => None,
    }
}

/// The `lcr` namespace of scripts. It asks the routing service with requests of
/// one version.
pub struct PyLcr {
    version: String,
}

impl View for PyLcr {
    type V = Seq<char>;

    closed spec fn view(&self) -> Seq<char> {
        self.version@
    }
}

impl PyLcr {
    pub fn new(version: String) -> (r: Self)
        ensures
            r@ == version@,
    {
        PyLcr { version }
    }

    /// What the routing service is asked about a call. Attributes must map text
    /// to text.
    pub fn route(
        &self,
        call: &PyCall,
        trunk_group: Option<String>,
        attributes: Option<Vec<(PyValue, PyValue)>>,
    ) -> (r: Result<LcrRequest, ScriptError>)
        ensures
            match r {
                Ok(request) => filter_of(opt_items(attributes)) matches Ok(map) && request@
                    == lcr_request_of(call@, self@, opt_text(trunk_group), map),
                Err(e) => filter_of(opt_items(attributes)) == Err::<
                    Seq<(Seq<char>, Seq<char>)>,
                    ErrorText,
                >(e@),
            },
    {
        let map = match &attributes {
            Some(items) => match to_string_map(items) {
                Ok(map) => map,
                Err(e) => {
                    return Err(e);
                },
            },
            None => {
                let none: Vec<(String, String)> = Vec::new();
                assert(pairs_text(none@) =~= Seq::<(Seq<char>, Seq<char>)>::empty());
                none
            },
        };
        Ok(call.lcr_request(&self.version, trunk_group, map))
    }
}

} // verus!
