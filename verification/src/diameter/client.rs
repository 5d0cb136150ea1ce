//! The Diameter namespace: which peer a request goes to, what goes into it,
//! and what the script gets of the answer.

use super::charging::{number_or_none, text_or_none};
use super::generic::JsonValue;
use super::server::PyPeerPool;
use crate::error::{type_error, value_error, ErrorText, ScriptError};
use crate::hex::{hex_bytes, hex_decode};
use crate::net::{in_network, ip_of, network_of, IpAddr, IpNetwork};
use crate::pyvalue::{
    as_ints, as_texts, as_u32, entries_text, values_text, PyText, PyValue,
};
use crate::text::{opt_str, opt_text, same_text, text_from_utf8, texts};
use vstd::prelude::*;
use vstd::string::*;
use vstd::utf8::{decode_utf8, valid_utf8};

verus! {

/// The termination cause of a regular logout.
pub const TERMINATION_CAUSE_LOGOUT: u32 = 1;

/// The peer that a request without a preference goes to: the first that
/// registered.
pub open spec fn any_peer(peers: Seq<Seq<char>>) -> Option<Seq<char>> {
    if peers.len() > 0 {
        Some(peers[0])
    } else {
        None
    }
}

/// The peer that a request goes to: the named one, if it is connected, else
/// the first.
pub open spec fn picked(peers: Seq<Seq<char>>, name: Option<Seq<char>>) -> Option<Seq<char>> {
    match name {
        Some(name) => if peers.contains(name) {
            Some(name)
        } else {
            None
        },
        None => any_peer(peers),
    }
}

/// The namespace, with the names of the connected peers in the order in which
/// they registered.
pub struct PyDiameter {
    peers: Vec<String>,
}

impl View for PyDiameter {
    type V = Seq<Seq<char>>;

    closed spec fn view(&self) -> Seq<Seq<char>> {
        texts(self.peers@)
    }
}

/// A request to a peer.
pub enum ClientCall {
    Uar { public_identity: String, visited_network_id: String, user_auth_type: Option<u32> },
    Sar { public_identity: String, server_name: String, assignment_type: u32 },
    Lir { public_identity: String },
    Air { imsi: String, visited_plmn_id: Vec<u8>, num_vectors: u32, immediate_response_preferred: bool, resync_info: Option<Vec<u8>> },
    Ulr { imsi: String, visited_plmn_id: Vec<u8>, rat_type: u32, ulr_flags: u32 },
    PurgeUe { imsi: String, pur_flags: Option<u32> },
    Udr { public_identity: String, data_reference: Vec<u32>, service_indication: Option<String> },
    Pur { public_identity: String, data_reference: u32, xml: String, service_indication: Option<String> },
    Snr { public_identity: String, data_reference: Vec<u32>, subs_req_type: u32, service_indication: Option<String> },
    Srr { msisdn: String, sc_address: String, sm_rp_mti: Option<u32> },
    Rsr { user_name: String, sc_address: String, delivery_outcome: u32 },
    Tfr { user_name: String, sc_address: String, sm_rp_ui: Vec<u8>, smsmi_correlation_id: Option<String>, sm_rp_mti: Option<u32> },
    Str { session_id: String, termination_cause: u32 },
}

/// A request and the peer that it goes to.
pub struct PlannedCall {
    pub peer: String,
    pub call: ClientCall,
}

/// The data references of a request: one number, or a list of them.
pub open spec fn references_of(p: PyText) -> Result<Seq<int>, ErrorText> {
    match as_u32(p) {
        Ok(n) => Ok(seq![n]),
        Err(_) => as_ints(p, u32::MAX as int),
    }
}

pub open spec fn numbers(v: Seq<u32>) -> Seq<int> {
    Seq::new(v.len(), |i: int| v[i] as int)
}

/// Reads data references from a number or a list of numbers.
pub fn extract_references(obj: &PyValue) -> (r: Result<Vec<u32>, ScriptError>)
    ensures
        match r {
            Ok(v) => references_of(obj@) == Ok::<Seq<int>, ErrorText>(numbers(v@)),
            Err(e) => references_of(obj@) == Err::<Seq<int>, ErrorText>(e@),
        },
{
    match obj.as_u32() {
        Ok(single) => {
            let v: Vec<u32> = vec![single];
            assert(numbers(v@) =~= seq![single as int]);
            Ok(v)
        },
        Err(_) => obj.as_u32s(),
    }
}

/// The names of a pool: one name, or a list of them.
pub open spec fn pool_names(p: PyText) -> Result<Seq<Seq<char>>, ErrorText> {
    match p {
        PyText::Text(name) => Ok(seq![name]),
        _ => match as_texts(p) {
            Ok(names) => Ok(names),
            Err(_) => Err(type_error("peer_pool target must be a peer name or list of names"@)),
        },
    }
}

/// The members and the label of a peer pool.
pub fn peer_pool(target: &PyValue, tenant: Option<String>) -> (r: Result<PyPeerPool, ScriptError>)
    ensures
        match r {
            Ok(pool) => pool_names(target@) == Ok::<Seq<Seq<char>>, ErrorText>(pool@.names)
                && pool@.tenant == match tenant {
                Some(t) => t@,
                None => "default"@,
            },
            Err(e) => pool_names(target@) == Err::<Seq<Seq<char>>, ErrorText>(e@),
        },
{
    let names = match target {
        PyValue::Text(name) => {
            let v: Vec<String> = vec![name.clone()];
            assert(texts(v@) =~= seq![name@]);
            v
        },
        _ => match target.as_texts() {
            Ok(names) => names,
            Err(_) => {
                return Err(
                    ScriptError::type_(
                        "peer_pool target must be a peer name or list of names".to_owned(),
                    ),
                );
            },
        },
    };
    let label = match tenant {
        Some(t) => t,
        None => "default".to_owned(),
    };
    Ok(PyPeerPool::new(names, label))
}

/// Whether an address is in a network.
pub fn ip_in_cidr(addr: &str, cidr: &str) -> (r: Result<bool, ScriptError>)
    ensures
        match ip_of(addr@) {
            None => r is Err && r->Err_0@ == value_error("bad IP: "@ + addr@),
            Some(ip) => match network_of(cidr@) {
                None => r is Err && r->Err_0@ == value_error("bad CIDR: "@ + cidr@),
                Some(net) => r == Ok::<bool, ScriptError>(in_network(net, ip)),
            },
        },
{
    let ip = match IpAddr::parse(addr) {
        Some(ip) => ip,
        None => {
            return Err(ScriptError::value("bad IP: ".to_owned().concat(addr)));
        },
    };
    match IpNetwork::parse(cidr) {
        Some(net) => Ok(net.contains(&ip)),
        None => Err(ScriptError::value("bad CIDR: ".to_owned().concat(cidr))),
    }
}

impl PyDiameter {
    /// A namespace without peers.
    pub fn new() -> (r: Self)
        ensures
            r@ == Seq::<Seq<char>>::empty(),
    {
        let r = PyDiameter { peers: Vec::new() };
        assert(r@ =~= Seq::<Seq<char>>::empty());
        r
    }

    /// Adds a connected peer.
    pub fn register(&mut self, name: String)
        ensures
            final(self)@ == if old(self)@.contains(name@) {
                old(self)@
            } else {
                old(self)@.push(name@)
            },
    {
        if !self.is_connected(&name) {
            self.peers.push(name);
            assert(texts(self.peers@) =~= old(self)@.push(name@));
        }
    }

    /// Whether a peer is connected.
    pub fn is_connected(&self, peer_name: &str) -> (r: bool)
        ensures
            r == self@.contains(peer_name@),
    {
        let mut i: usize = 0;
        while i < self.peers.len()
            invariant
                i <= self.peers@.len(),
                forall|k: int| 0 <= k < i ==> #[trigger] self@[k] != peer_name@,
            decreases self.peers@.len() - i,
        {
            if same_text(&self.peers[i], peer_name) {
                assert(self@[i as int] == peer_name@);
                return true;
            }
            i += 1;
        }
        false
    }

    /// The number of connected peers.
    pub fn peer_count(&self) -> (r: usize)
        ensures
            r == self@.len(),
    {
        self.peers.len()
    }

    fn any_client(&self) -> (r: Option<String>)
        ensures
            opt_text(r) == any_peer(self@),
    {
        if self.peers.len() > 0 {
            Some(self.peers[0].clone())
        } else {
            None
        }
    }

    /// The peer that a request goes to.
    pub fn pick_rf_peer(&self, peer: Option<&str>) -> (r: Option<String>)
        ensures
            opt_text(r) == picked(self@, opt_str(peer)),
    {
        match peer {
            Some(name) => if self.is_connected(name) {
                Some(name.to_owned())
            } else {
                None
            },
            None => self.any_client(),
        }
    }

    /// Asks the HSS which S-CSCF serves a registering user. Nothing where no peer is connected.
    pub fn cx_uar(&self, public_identity: String, visited_network_id: Option<String>, user_auth_type: Option<u32>) -> (r: Option<PlannedCall>)
        ensures
            match r {
                None => any_peer(self@) is None,
                Some(p) => any_peer(self@) == Some(p.peer@) && (p.call matches ClientCall::Uar { public_identity: got_0, visited_network_id: got_1, user_auth_type: got_2 } && got_0 == public_identity && got_1@ == (match visited_network_id { Some(s) => s@, None => ""@ }) && got_2 == user_auth_type),
            },
    {
        let target = match self.any_client() {
            Some(target) => target,
            None => {
                return None;
            },
        };
        let visited_network_id_text = match visited_network_id {
            Some(s) => s,
            None => "".to_owned(),
        };
        Some(PlannedCall { peer: target, call: ClientCall::Uar { public_identity, visited_network_id: visited_network_id_text, user_auth_type } })
    }

    /// Confirms to the HSS that this S-CSCF serves a user. Nothing where no peer is connected.
    pub fn cx_sar(&self, public_identity: String, server_name: Option<String>, assignment_type: u32) -> (r: Option<PlannedCall>)
        ensures
            match r {
                None => any_peer(self@) is None,
                Some(p) => any_peer(self@) == Some(p.peer@) && (p.call matches ClientCall::Sar { public_identity: got_0, server_name: got_1, assignment_type: got_2 } && got_0 == public_identity && got_1@ == (match server_name { Some(s) => s@, None => ""@ }) && got_2 == assignment_type),
            },
    {
        let target = match self.any_client() {
            Some(target) => target,
            None => {
                return None;
            },
        };
        let server_name_text = match server_name {
            Some(s) => s,
            None => "".to_owned(),
        };
        Some(PlannedCall { peer: target, call: ClientCall::Sar { public_identity, server_name: server_name_text, assignment_type } })
    }

    /// Asks the HSS which S-CSCF serves a user. Nothing where no peer is connected.
    pub fn cx_lir(&self, public_identity: String) -> (r: Option<PlannedCall>)
        ensures
            match r {
                None => any_peer(self@) is None,
                Some(p) => any_peer(self@) == Some(p.peer@) && (p.call matches ClientCall::Lir { public_identity: got_0 } && got_0 == public_identity),
            },
    {
        let target = match self.any_client() {
            Some(target) => target,
            None => {
                return None;
            },
        };
        Some(PlannedCall { peer: target, call: ClientCall::Lir { public_identity } })
    }

    /// Asks the HSS for authentication vectors. Nothing where no peer is connected.
    pub fn s6a_air(&self, imsi: String, visited_plmn_id: Vec<u8>, num_vectors: u32, immediate_response_preferred: bool, resync_info: Option<Vec<u8>>, peer: Option<&str>) -> (r: Option<PlannedCall>)
        ensures
            match r {
                None => picked(self@, opt_str(peer)) is None,
                Some(p) => picked(self@, opt_str(peer)) == Some(p.peer@) && (p.call matches ClientCall::Air { imsi: got_0, visited_plmn_id: got_1, num_vectors: got_2, immediate_response_preferred: got_3, resync_info: got_4 } && got_0 == imsi && got_1 == visited_plmn_id && got_2 == num_vectors && got_3 == immediate_response_preferred && got_4 == resync_info),
            },
    {
        let target = match self.pick_rf_peer(peer) {
            Some(target) => target,
            None => {
                return None;
            },
        };
        Some(PlannedCall { peer: target, call: ClientCall::Air { imsi, visited_plmn_id, num_vectors, immediate_response_preferred, resync_info } })
    }

    /// Tells the HSS where a subscriber is. Nothing where no peer is connected.
    pub fn s6a_ulr(&self, imsi: String, visited_plmn_id: Vec<u8>, rat_type: u32, ulr_flags: u32, peer: Option<&str>) -> (r: Option<PlannedCall>)
        ensures
            match r {
                None => picked(self@, opt_str(peer)) is None,
                Some(p) => picked(self@, opt_str(peer)) == Some(p.peer@) && (p.call matches ClientCall::Ulr { imsi: got_0, visited_plmn_id: got_1, rat_type: got_2, ulr_flags: got_3 } && got_0 == imsi && got_1 == visited_plmn_id && got_2 == rat_type && got_3 == ulr_flags),
            },
    {
        let target = match self.pick_rf_peer(peer) {
            Some(target) => target,
            None => {
                return None;
            },
        };
        Some(PlannedCall { peer: target, call: ClientCall::Ulr { imsi, visited_plmn_id, rat_type, ulr_flags } })
    }

    /// Tells the HSS that a subscriber was purged. Nothing where no peer is connected.
    pub fn s6a_purge_ue(&self, imsi: String, pur_flags: Option<u32>, peer: Option<&str>) -> (r: Option<PlannedCall>)
        ensures
            match r {
                None => picked(self@, opt_str(peer)) is None,
                Some(p) => picked(self@, opt_str(peer)) == Some(p.peer@) && (p.call matches ClientCall::PurgeUe { imsi: got_0, pur_flags: got_1 } && got_0 == imsi && got_1 == pur_flags),
            },
    {
        let target = match self.pick_rf_peer(peer) {
            Some(target) => target,
            None => {
                return None;
            },
        };
        Some(PlannedCall { peer: target, call: ClientCall::PurgeUe { imsi, pur_flags } })
    }

    /// Asks the HSS for profile data. Nothing where no peer is connected.
    pub fn sh_udr(&self, public_identity: String, data_reference: &PyValue, service_indication: Option<String>) -> (r: Result<Option<PlannedCall>, ScriptError>)
        ensures
            match r {
                Ok(None) => any_peer(self@) is None,
                Ok(Some(p)) => any_peer(self@) == Some(p.peer@) && (p.call matches ClientCall::Udr { public_identity: got_0, data_reference: got_1, service_indication: got_2 } && got_0 == public_identity && references_of(data_reference@) == Ok::<Seq<int>, ErrorText>(numbers(got_1@)) && got_2 == service_indication),
                Err(e) => any_peer(self@) is Some && references_of(data_reference@) == Err::<Seq<int>, ErrorText>(e@),
            },
    {
        let target = match self.any_client() {
            Some(target) => target,
            None => {
                return Ok(None);
            },
        };
        let references = match extract_references(data_reference) {
            Ok(v) => v,
            Err(e) => {
                return Err(e);
            },
        };
        Ok(Some(PlannedCall { peer: target, call: ClientCall::Udr { public_identity, data_reference: references, service_indication } }))
    }

    /// Uploads profile data to the HSS. Nothing where no peer is connected.
    pub fn sh_pur(&self, public_identity: String, data_reference: u32, xml: String, service_indication: Option<String>) -> (r: Option<PlannedCall>)
        ensures
            match r {
                None => any_peer(self@) is None,
                Some(p) => any_peer(self@) == Some(p.peer@) && (p.call matches ClientCall::Pur { public_identity: got_0, data_reference: got_1, xml: got_2, service_indication: got_3 } && got_0 == public_identity && got_1 == data_reference && got_2 == xml && got_3 == service_indication),
            },
    {
        let target = match self.any_client() {
            Some(target) => target,
            None => {
                return None;
            },
        };
        Some(PlannedCall { peer: target, call: ClientCall::Pur { public_identity, data_reference, xml, service_indication } })
    }

    /// Subscribes to changes of profile data. Nothing where no peer is connected.
    pub fn sh_snr(&self, public_identity: String, data_reference: &PyValue, subs_req_type: u32, service_indication: Option<String>) -> (r: Result<Option<PlannedCall>, ScriptError>)
        ensures
            match r {
                Ok(None) => any_peer(self@) is None,
                Ok(Some(p)) => any_peer(self@) == Some(p.peer@) && (p.call matches ClientCall::Snr { public_identity: got_0, data_reference: got_1, subs_req_type: got_2, service_indication: got_3 } && got_0 == public_identity && references_of(data_reference@) == Ok::<Seq<int>, ErrorText>(numbers(got_1@)) && got_2 == subs_req_type && got_3 == service_indication),
                Err(e) => any_peer(self@) is Some && references_of(data_reference@) == Err::<Seq<int>, ErrorText>(e@),
            },
    {
        let target = match self.any_client() {
            Some(target) => target,
            None => {
                return Ok(None);
            },
        };
        let references = match extract_references(data_reference) {
            Ok(v) => v,
            Err(e) => {
                return Err(e);
            },
        };
        Ok(Some(PlannedCall { peer: target, call: ClientCall::Snr { public_identity, data_reference: references, subs_req_type, service_indication } }))
    }

    /// Asks the HSS which node serves a subscriber for a short message. Nothing where no peer is connected.
    pub fn s6c_srr(&self, msisdn: String, sc_address: String, sm_rp_mti: Option<u32>) -> (r: Option<PlannedCall>)
        ensures
            match r {
                None => any_peer(self@) is None,
                Some(p) => any_peer(self@) == Some(p.peer@) && (p.call matches ClientCall::Srr { msisdn: got_0, sc_address: got_1, sm_rp_mti: got_2 } && got_0 == msisdn && got_1 == sc_address && got_2 == sm_rp_mti),
            },
    {
        let target = match self.any_client() {
            Some(target) => target,
            None => {
                return None;
            },
        };
        Some(PlannedCall { peer: target, call: ClientCall::Srr { msisdn, sc_address, sm_rp_mti } })
    }

    /// Reports the outcome of a short message to the HSS. Nothing where no peer is connected.
    pub fn s6c_rsr(&self, user_name: String, sc_address: String, delivery_outcome: u32) -> (r: Option<PlannedCall>)
        ensures
            match r {
                None => any_peer(self@) is None,
                Some(p) => any_peer(self@) == Some(p.peer@) && (p.call matches ClientCall::Rsr { user_name: got_0, sc_address: got_1, delivery_outcome: got_2 } && got_0 == user_name && got_1 == sc_address && got_2 == delivery_outcome),
            },
    {
        let target = match self.any_client() {
            Some(target) => target,
            None => {
                return None;
            },
        };
        Some(PlannedCall { peer: target, call: ClientCall::Rsr { user_name, sc_address, delivery_outcome } })
    }

    /// Forwards a short message to the serving node. Nothing where no peer is connected.
    pub fn sgd_tfr(&self, user_name: String, sc_address: String, sm_rp_ui: Vec<u8>, smsmi_correlation_id: Option<String>, sm_rp_mti: Option<u32>) -> (r: Option<PlannedCall>)
        ensures
            match r {
                None => any_peer(self@) is None,
                Some(p) => any_peer(self@) == Some(p.peer@) && (p.call matches ClientCall::Tfr { user_name: got_0, sc_address: got_1, sm_rp_ui: got_2, smsmi_correlation_id: got_3, sm_rp_mti: got_4 } && got_0 == user_name && got_1 == sc_address && got_2 == sm_rp_ui && got_3 == smsmi_correlation_id && got_4 == sm_rp_mti),
            },
    {
        let target = match self.any_client() {
            Some(target) => target,
            None => {
                return None;
            },
        };
        Some(PlannedCall { peer: target, call: ClientCall::Tfr { user_name, sc_address, sm_rp_ui, smsmi_correlation_id, sm_rp_mti } })
    }

    /// Releases the resources of a media session. Nothing where no peer is connected.
    pub fn rx_str(&self, session_id: String) -> (r: Option<PlannedCall>)
        ensures
            match r {
                None => any_peer(self@) is None,
                Some(p) => any_peer(self@) == Some(p.peer@) && (p.call matches ClientCall::Str { session_id: got_0, termination_cause: got_1 } && got_0 == session_id && got_1 == TERMINATION_CAUSE_LOGOUT),
            },
    {
        let target = match self.any_client() {
            Some(target) => target,
            None => {
                return None;
            },
        };
        Some(PlannedCall { peer: target, call: ClientCall::Str { session_id, termination_cause: TERMINATION_CAUSE_LOGOUT } })
    }

}

/// The first value under a name in a decoded answer.
pub open spec fn member(v: Seq<(String, JsonValue)>, name: Seq<char>) -> Option<JsonValue>
    decreases v.len(),
{
    if v.len() == 0 {
        None
    } else if v[0].0@ == name {
        Some(v[0].1)
    } else {
        member(v.skip(1), name)
    }
}

/// The value of an AVP in a decoded answer.
pub open spec fn avp_in(answer: JsonValue, name: Seq<char>) -> Option<JsonValue> {
    match answer {
        JsonValue::Object(v) => member(v@, name),
        _ => None,
    }
}

/// The number of an AVP in a decoded answer, where it is one of 32 bits.
pub open spec fn number_in(answer: JsonValue, name: Seq<char>) -> Option<u32> {
    match avp_in(answer, name) {
        Some(JsonValue::Unsigned(n)) => if n <= u32::MAX {
            Some(n as u32)
        } else {
            None
        },
        _ => None,
    }
}

/// The result of a decoded answer: its Result-Code, else zero.
pub open spec fn result_code_in(answer: JsonValue) -> u32 {
    match number_in(answer, "Result-Code"@) {
        Some(code) => code,
        None => 0,
    }
}

/// The text of an AVP in a decoded answer.
pub open spec fn text_in(answer: JsonValue, name: Seq<char>) -> Option<Seq<char>> {
    match avp_in(answer, name) {
        Some(JsonValue::Text(s)) => Some(s@),
        _ => None,
    }
}

/// The text in the octets of an AVP. Octets stand in a decoded answer in
/// hexadecimal; where they do not, the text is the one that stands there.
pub open spec fn octet_text_in(answer: JsonValue, name: Seq<char>) -> Option<Seq<char>> {
    match text_in(answer, name) {
        Some(s) => match hex_bytes(s) {
            Some(bytes) => if valid_utf8(bytes) {
                Some(decode_utf8(bytes))
            } else {
                None
            },
            None => Some(s),
        },
        None => None,
    }
}

fn find_avp_in<'a>(answer: &'a JsonValue, name: &str) -> (r: Option<&'a JsonValue>)
    ensures
        match r {
            Some(value) => avp_in(*answer, name@) == Some(*value),
            None => avp_in(*answer, name@) is None,
        },
{
    match answer {
        JsonValue::Object(v) => {
            let ghost all = v@;
            let mut i: usize = 0;
            assert(all.skip(0) =~= all);
            while i < v.len()
                invariant
                    i <= v@.len(),
                    all == v@,
                    *answer == JsonValue::Object(*v),
                    member(all, name@) == member(all.skip(i as int), name@),
                decreases v@.len() - i,
            {
                if same_text(&v[i].0, name) {
                    return Some(&v[i].1);
                }
                assert(all.skip(i as int).skip(1) =~= all.skip(i + 1));
                i += 1;
            }
            None
        },
        _ => None,
    }
}

/// The result of a decoded answer; zero where it has none.
pub fn extract_result_code(answer: &JsonValue) -> (r: u32)
    ensures
        r == result_code_in(*answer),
{
    match find_avp_in(answer, "Result-Code") {
        Some(JsonValue::Unsigned(n)) => if *n <= u32::MAX as u64 {
            *n as u32
        } else {
            0
        },
        _ => 0,
    }
}

/// The text of an AVP in a decoded answer.
pub fn required_str(answer: &JsonValue, name: &str) -> (r: Option<String>)
    ensures
        opt_text(r) == text_in(*answer, name@),
{
    match find_avp_in(answer, name) {
        Some(JsonValue::Text(s)) => Some(s.clone()),
        _ => None,
    }
}

/// The text in the octets of an AVP in a decoded answer.
pub fn octet_string_as_utf8(answer: &JsonValue, name: &str) -> (r: Option<String>)
    ensures
        opt_text(r) == octet_text_in(*answer, name@),
{
    match required_str(answer, name) {
        Some(s) => match hex_decode(&s) {
            Some(bytes) => text_from_utf8(bytes),
            None => Some(s),
        },
        None => None,
    }
}

/// What a decoded answer says about the server of a subscriber: a UAR or LIR
/// answer carries its Server-Name.
pub fn server_name_answer(answer: &JsonValue) -> (r: (u32, Option<String>))
    ensures
        r.0 == result_code_in(*answer),
        opt_text(r.1) == text_in(*answer, "Server-Name"@),
{
    (extract_result_code(answer), required_str(answer, "Server-Name"))
}

/// What a decoded answer says about the profile of a subscriber: a SAR answer
/// carries it in User-Data.
pub fn user_data_answer(answer: &JsonValue) -> (r: (u32, Option<String>))
    ensures
        r.0 == result_code_in(*answer),
        opt_text(r.1) == octet_text_in(*answer, "User-Data"@),
{
    (extract_result_code(answer), octet_string_as_utf8(answer, "User-Data"))
}

/// What a decoded answer says about the data of a subscriber: a UDR answer
/// carries it in User-Data-Sh.
pub fn sh_user_data_answer(answer: &JsonValue) -> (r: (u32, Option<String>))
    ensures
        r.0 == result_code_in(*answer),
        opt_text(r.1) == octet_text_in(*answer, "User-Data-Sh"@),
{
    (extract_result_code(answer), octet_string_as_utf8(answer, "User-Data-Sh"))
}

/// The dict that a script gets for the decoded answer to a request, where the
/// answer is read here.
pub open spec fn answer_value(call: ClientCall, answer: JsonValue) -> Option<PyText> {
    let code = ("result_code"@, PyText::Int(result_code_in(answer) as int));
    match call {
        ClientCall::Uar { .. } | ClientCall::Lir { .. } => Some(
            PyText::Dict(
                seq![code, ("server_name"@, text_or_none(text_in(answer, "Server-Name"@)))],
            ),
        ),
        ClientCall::Sar { .. } => Some(
            PyText::Dict(
                seq![code, ("user_data"@, text_or_none(octet_text_in(answer, "User-Data"@)))],
            ),
        ),
        ClientCall::Udr { .. } => Some(
            PyText::Dict(
                seq![code, ("user_data"@, text_or_none(octet_text_in(answer, "User-Data-Sh"@)))],
            ),
        ),
        ClientCall::Pur { .. } | ClientCall::Snr { .. } | ClientCall::PurgeUe { .. } => Some(
            PyText::Dict(seq![code]),
        ),
        _ => None,
    }
}

/// The dict for the decoded answer to a request; `None` for the requests whose
/// answers need more than the AVPs at the top.
pub fn answer_result(call: &ClientCall, answer: &JsonValue) -> (r: Option<PyValue>)
    ensures
        match r {
            Some(value) => answer_value(*call, *answer) == Some(value@),
            None => answer_value(*call, *answer) is None,
        },
{
    match call {
        ClientCall::Uar { .. } | ClientCall::Lir { .. } => server_name_result(
            Some(server_name_answer(answer)),
        ),
        ClientCall::Sar { .. } => user_data_result(Some(user_data_answer(answer))),
        ClientCall::Udr { .. } => user_data_result(Some(sh_user_data_answer(answer))),
        ClientCall::Pur { .. } | ClientCall::Snr { .. } | ClientCall::PurgeUe { .. } => plain_result(
            Some(extract_result_code(answer)),
        ),
        _ => None,
    }
}

/// The dict of a UAR or LIR answer. Nothing where the exchange failed.
pub fn server_name_result(answer: Option<(u32, Option<String>)>) -> (r: Option<PyValue>)
    ensures
        match answer {
            None => r is None,
            Some((result_code, server_name)) => r is Some && r->0@ == PyText::Dict(
                seq![
                    ("result_code"@, PyText::Int(result_code as int)),
                    ("server_name"@, text_or_none(opt_text(server_name)))
                ],
            ),
        },
{
    match answer {
        None => None,
        Some((result_code, server_name)) => {
            let entries: Vec<(String, PyValue)> = vec![
                ("result_code".to_owned(), PyValue::Int(result_code as i128)),
                ("server_name".to_owned(), PyValue::opt_text(server_name))
            ];
            let ghost want = seq![
                ("result_code"@, PyText::Int(result_code as int)),
                ("server_name"@, text_or_none(opt_text(server_name)))
            ];
            assert(entries_text(entries@) =~= want);
            Some(PyValue::dict(entries))
        },
    }
}

/// The dict of a SAR or UDR answer. Nothing where the exchange failed.
pub fn user_data_result(answer: Option<(u32, Option<String>)>) -> (r: Option<PyValue>)
    ensures
        match answer {
            None => r is None,
            Some((result_code, user_data)) => r is Some && r->0@ == PyText::Dict(
                seq![
                    ("result_code"@, PyText::Int(result_code as int)),
                    ("user_data"@, text_or_none(opt_text(user_data)))
                ],
            ),
        },
{
    match answer {
        None => None,
        Some((result_code, user_data)) => {
            let entries: Vec<(String, PyValue)> = vec![
                ("result_code".to_owned(), PyValue::Int(result_code as i128)),
                ("user_data".to_owned(), PyValue::opt_text(user_data))
            ];
            let ghost want = seq![
                ("result_code"@, PyText::Int(result_code as int)),
                ("user_data"@, text_or_none(opt_text(user_data)))
            ];
            assert(entries_text(entries@) =~= want);
            Some(PyValue::dict(entries))
        },
    }
}

/// The dict of an answer that carries a result alone. Nothing where the exchange failed.
pub fn plain_result(answer: Option<u32>) -> (r: Option<PyValue>)
    ensures
        match answer {
            None => r is None,
            Some(result_code) => r is Some && r->0@ == PyText::Dict(
                seq![
                    ("result_code"@, PyText::Int(result_code as int))
                ],
            ),
        },
{
    match answer {
        None => None,
        Some(result_code) => {
            let entries: Vec<(String, PyValue)> = vec![
                ("result_code".to_owned(), PyValue::Int(result_code as i128))
            ];
            let ghost want = seq![
                ("result_code"@, PyText::Int(result_code as int))
            ];
            assert(entries_text(entries@) =~= want);
            Some(PyValue::dict(entries))
        },
    }
}

/// The dict of an AA-Request's answer. Nothing where the exchange failed.
pub fn aar_result(answer: Option<(u32, String)>) -> (r: Option<PyValue>)
    ensures
        match answer {
            None => r is None,
            Some((result_code, session_id)) => r is Some && r->0@ == PyText::Dict(
                seq![
                    ("result_code"@, PyText::Int(result_code as int)),
                    ("session_id"@, PyText::Text(session_id@))
                ],
            ),
        },
{
    match answer {
        None => None,
        Some((result_code, session_id)) => {
            let entries: Vec<(String, PyValue)> = vec![
                ("result_code".to_owned(), PyValue::Int(result_code as i128)),
                ("session_id".to_owned(), PyValue::Text(session_id))
            ];
            let ghost want = seq![
                ("result_code"@, PyText::Int(result_code as int)),
                ("session_id"@, PyText::Text(session_id@))
            ];
            assert(entries_text(entries@) =~= want);
            Some(PyValue::dict(entries))
        },
    }
}

/// The dict of a ULR answer. Nothing where the exchange failed.
pub fn ulr_result(answer: Option<(u32, Option<u32>, bool)>) -> (r: Option<PyValue>)
    ensures
        match answer {
            None => r is None,
            Some((result_code, ula_flags, has_subscription_data)) => r is Some && r->0@ == PyText::Dict(
                seq![
                    ("result_code"@, PyText::Int(result_code as int)),
                    ("ula_flags"@, number_or_none(ula_flags)),
                    ("has_subscription_data"@, PyText::Bool(has_subscription_data))
                ],
            ),
        },
{
    match answer {
        None => None,
        Some((result_code, ula_flags, has_subscription_data)) => {
            let entries: Vec<(String, PyValue)> = vec![
                ("result_code".to_owned(), PyValue::Int(result_code as i128)),
                ("ula_flags".to_owned(), PyValue::opt_u32(ula_flags)),
                ("has_subscription_data".to_owned(), PyValue::Bool(has_subscription_data))
            ];
            let ghost want = seq![
                ("result_code"@, PyText::Int(result_code as int)),
                ("ula_flags"@, number_or_none(ula_flags)),
                ("has_subscription_data"@, PyText::Bool(has_subscription_data))
            ];
            assert(entries_text(entries@) =~= want);
            Some(PyValue::dict(entries))
        },
    }
}

/// What an SRR answer carries.
pub struct SraAnswer {
    pub result_code: Option<u32>,
    pub experimental_result_code: Option<u32>,
    pub user_name: Option<String>,
    pub sgsn_number: Option<String>,
    pub mme_number_for_mt_sms: Option<String>,
}

/// The dict of an SRR answer. Nothing where the exchange failed.
pub fn srr_result(answer: Option<SraAnswer>) -> (r: Option<PyValue>)
    ensures
        match answer {
            None => r is None,
            Some(a) => r is Some && r->0@ == PyText::Dict(
                seq![
                    ("result_code"@, number_or_none(a.result_code)),
                    ("experimental_result_code"@, number_or_none(a.experimental_result_code)),
                    ("user_name"@, text_or_none(opt_text(a.user_name))),
                    ("sgsn_number"@, text_or_none(opt_text(a.sgsn_number))),
                    ("mme_number_for_mt_sms"@, text_or_none(opt_text(a.mme_number_for_mt_sms)))
                ],
            ),
        },
{
    match answer {
        None => None,
        Some(a) => {
            let entries: Vec<(String, PyValue)> = vec![
                ("result_code".to_owned(), PyValue::opt_u32(a.result_code)),
                ("experimental_result_code".to_owned(), PyValue::opt_u32(a.experimental_result_code)),
                ("user_name".to_owned(), PyValue::opt_text(a.user_name)),
                ("sgsn_number".to_owned(), PyValue::opt_text(a.sgsn_number)),
                ("mme_number_for_mt_sms".to_owned(), PyValue::opt_text(a.mme_number_for_mt_sms))
            ];
            let ghost want = seq![
                ("result_code"@, number_or_none(a.result_code)),
                ("experimental_result_code"@, number_or_none(a.experimental_result_code)),
                ("user_name"@, text_or_none(opt_text(a.user_name))),
                ("sgsn_number"@, text_or_none(opt_text(a.sgsn_number))),
                ("mme_number_for_mt_sms"@, text_or_none(opt_text(a.mme_number_for_mt_sms)))
            ];
            assert(entries_text(entries@) =~= want);
            Some(PyValue::dict(entries))
        },
    }
}

/// The dict of an RSR answer. Nothing where the exchange failed.
pub fn rsr_result(answer: Option<(Option<u32>, Option<u32>, Option<String>)>) -> (r: Option<PyValue>)
    ensures
        match answer {
            None => r is None,
            Some((result_code, experimental, user_name)) => r is Some && r->0@ == PyText::Dict(
                seq![
                    ("result_code"@, number_or_none(result_code)),
                    ("experimental_result_code"@, number_or_none(experimental)),
                    ("user_name"@, text_or_none(opt_text(user_name)))
                ],
            ),
        },
{
    match answer {
        None => None,
        Some((result_code, experimental, user_name)) => {
            let entries: Vec<(String, PyValue)> = vec![
                ("result_code".to_owned(), PyValue::opt_u32(result_code)),
                ("experimental_result_code".to_owned(), PyValue::opt_u32(experimental)),
                ("user_name".to_owned(), PyValue::opt_text(user_name))
            ];
            let ghost want = seq![
                ("result_code"@, number_or_none(result_code)),
                ("experimental_result_code"@, number_or_none(experimental)),
                ("user_name"@, text_or_none(opt_text(user_name)))
            ];
            assert(entries_text(entries@) =~= want);
            Some(PyValue::dict(entries))
        },
    }
}

/// The dict of a TFR answer. Nothing where the exchange failed.
pub fn tfr_result(answer: Option<(Option<u32>, Option<u32>, Option<u32>)>) -> (r: Option<PyValue>)
    ensures
        match answer {
            None => r is None,
            Some((result_code, experimental, diagnostic)) => r is Some && r->0@ == PyText::Dict(
                seq![
                    ("result_code"@, number_or_none(result_code)),
                    ("experimental_result_code"@, number_or_none(experimental)),
                    ("absent_user_diagnostic"@, number_or_none(diagnostic))
                ],
            ),
        },
{
    match answer {
        None => None,
        Some((result_code, experimental, diagnostic)) => {
            let entries: Vec<(String, PyValue)> = vec![
                ("result_code".to_owned(), PyValue::opt_u32(result_code)),
                ("experimental_result_code".to_owned(), PyValue::opt_u32(experimental)),
                ("absent_user_diagnostic".to_owned(), PyValue::opt_u32(diagnostic))
            ];
            let ghost want = seq![
                ("result_code"@, number_or_none(result_code)),
                ("experimental_result_code"@, number_or_none(experimental)),
                ("absent_user_diagnostic"@, number_or_none(diagnostic))
            ];
            assert(entries_text(entries@) =~= want);
            Some(PyValue::dict(entries))
        },
    }
}

/// One authentication vector of an AIR answer.
pub struct EutranVector {
    pub rand: Vec<u8>,
    pub xres: Vec<u8>,
    pub autn: Vec<u8>,
    pub kasme: Vec<u8>,
}

/// The dict of a vector.
pub open spec fn vector_dict(v: EutranVector) -> PyText {
    PyText::Dict(
        seq![
            ("rand"@, PyText::Bytes(v.rand@)),
            ("xres"@, PyText::Bytes(v.xres@)),
            ("autn"@, PyText::Bytes(v.autn@)),
            ("kasme"@, PyText::Bytes(v.kasme@)),
        ],
    )
}

fn copy_bytes(b: &Vec<u8>) -> (r: Vec<u8>)
    ensures
        r@ == b@,
{
    let mut out: Vec<u8> = Vec::new();
    out.extend_from_slice(b.as_slice());
    assert(out@ =~= b@);
    out
}

fn vector_to_py(v: &EutranVector) -> (r: PyValue)
    ensures
        r@ == vector_dict(*v),
{
    let entries: Vec<(String, PyValue)> = vec![
        ("rand".to_owned(), PyValue::Bytes(copy_bytes(&v.rand))),
        ("xres".to_owned(), PyValue::Bytes(copy_bytes(&v.xres))),
        ("autn".to_owned(), PyValue::Bytes(copy_bytes(&v.autn))),
        ("kasme".to_owned(), PyValue::Bytes(copy_bytes(&v.kasme))),
    ];
    let r = PyValue::dict(entries);
    assert(r@->Dict_0 =~= vector_dict(*v)->Dict_0);
    r
}

/// The dict of an AIR answer, with its vectors in order. Nothing where the
/// exchange failed.
pub fn air_result(answer: Option<(u32, Vec<EutranVector>)>) -> (r: Option<PyValue>)
    ensures
        match answer {
            None => r is None,
            Some((result_code, vectors)) => r is Some && r->0@ == PyText::Dict(
                seq![
                    ("result_code"@, PyText::Int(result_code as int)),
                    (
                        "vectors"@,
                        PyText::List(
                            Seq::new(vectors@.len(), |i: int| vector_dict(vectors@[i])),
                        ),
                    ),
                ],
            ),
        },
{
    match answer {
        None => None,
        Some((result_code, vectors)) => {
            let ghost rows = Seq::new(vectors@.len(), |i: int| vector_dict(vectors@[i]));
            let mut list: Vec<PyValue> = Vec::new();
            let mut i: usize = 0;
            while i < vectors.len()
                invariant
                    i <= vectors@.len(),
                    rows == Seq::new(vectors@.len(), |k: int| vector_dict(vectors@[k])),
                    values_text(list@) == rows.take(i as int),
                decreases vectors@.len() - i,
            {
                let ghost before = list@;
                let item = vector_to_py(&vectors[i]);
                list.push(item);
                assert(values_text(list@) =~= values_text(before).push(item@));
                assert(values_text(list@) =~= rows.take(i + 1));
                i += 1;
            }
            assert(rows.take(rows.len() as int) =~= rows);
            let entries: Vec<(String, PyValue)> = vec![
                ("result_code".to_owned(), PyValue::Int(result_code as i128)),
                ("vectors".to_owned(), PyValue::list(list)),
            ];
            let ghost want = seq![
                ("result_code"@, PyText::Int(result_code as int)),
                ("vectors"@, PyText::List(rows)),
            ];
            assert(entries_text(entries@) =~= want);
            Some(PyValue::dict(entries))
        },
    }
}

} // verus!
