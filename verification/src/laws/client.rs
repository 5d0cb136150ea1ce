//! Laws of the Diameter requests that a script makes and of what it is told.

use crate::diameter::client::{
    air_result, extract_references, peer_pool, rsr_result, server_name_result, srr_result,
    tfr_result, ulr_result, user_data_result, aar_result, plain_result, ClientCall, EutranVector,
    PlannedCall, PyDiameter, SraAnswer,
};
use crate::diameter::server::PyPeerPool;
use crate::laws::pyvalue::{told_number, told_text};
use crate::pyvalue::{PyText, PyValue};
use crate::text::opt_text;
use vstd::prelude::*;
use vstd::string::*;

verus! {

/// A peer that is registered is connected from then on, once however often it is
/// registered, and so is every peer before it.
pub proof fn registered_peer_is_connected(
    diameter: &mut PyDiameter,
    name: String,
    after: PyDiameter,
    other: &str,
    before: bool,
    connected: bool,
)
    requires
        call_ensures(PyDiameter::is_connected, (&*old(diameter), other), before),
        call_ensures(PyDiameter::register, (diameter, name), ()),
        call_ensures(PyDiameter::is_connected, (&after, other), connected),
    ensures
        after == *final(diameter) ==> connected == (before || other@ == name@),
{
    let old_peers = old(diameter)@;
    let new_peers = final(diameter)@;
    if old_peers.contains(other@) {
        let i = choose|i: int| 0 <= i < old_peers.len() && old_peers[i] == other@;
        assert(new_peers[i] == other@);
    }
    if new_peers.contains(other@) && !old_peers.contains(other@) {
        let i = choose|i: int| 0 <= i < new_peers.len() && new_peers[i] == other@;
        if i < old_peers.len() {
            assert(old_peers[i] == other@);
        }
    }
    if other@ == name@ && !old_peers.contains(name@) {
        assert(new_peers[old_peers.len() as int] == name@);
    }
}

/// A named peer is used where it is connected and none in its place; without a
/// name the first to connect is used.
pub proof fn peer_is_the_one_named(
    diameter: PyDiameter,
    name: Option<&str>,
    peer: Option<String>,
    connected: bool,
)
    requires
        call_ensures(PyDiameter::pick_rf_peer, (&diameter, name), peer),
        name matches Some(wanted) ==> call_ensures(
            PyDiameter::is_connected,
            (&diameter, wanted),
            connected,
        ),
    ensures
        match name {
            Some(wanted) => opt_text(peer) == if connected {
                Some(wanted@)
            } else {
                None
            },
            None => match peer {
                Some(p) => diameter@.len() > 0 && p@ == diameter@[0],
                None => diameter@.len() == 0,
            },
        },
{
}

/// The request for an authorisation carries each value in its own place and goes to the
/// peer that is connected first; there is none without such a peer.
pub proof fn cx_uar_carries_its_values(
    diameter: PyDiameter,
    public_identity: String,
    visited_network_id: Option<String>,
    user_auth_type: Option<u32>,
    picked: Option<String>,
    planned: Option<PlannedCall>,
)
    requires
        call_ensures(PyDiameter::cx_uar, (&diameter, public_identity, visited_network_id, user_auth_type), planned),
        call_ensures(PyDiameter::pick_rf_peer, (&diameter, None), picked),
    ensures
        planned is Some <==> picked is Some,
        planned matches Some(plan) ==> {
            &&& opt_text(picked) == Some(plan.peer@)
            &&& plan.call matches ClientCall::Uar { public_identity: its_public_identity, visited_network_id: its_visited_network_id, user_auth_type: its_user_auth_type }
            &&& its_public_identity == public_identity
            &&& its_visited_network_id@ == match visited_network_id {
                Some(text) => text@,
                None => ""@,
            }
            &&& its_user_auth_type == user_auth_type
        },
{
}

/// The request for a server assignment carries each value in its own place and goes to the
/// peer that is connected first; there is none without such a peer.
pub proof fn cx_sar_carries_its_values(
    diameter: PyDiameter,
    public_identity: String,
    server_name: Option<String>,
    assignment_type: u32,
    picked: Option<String>,
    planned: Option<PlannedCall>,
)
    requires
        call_ensures(PyDiameter::cx_sar, (&diameter, public_identity, server_name, assignment_type), planned),
        call_ensures(PyDiameter::pick_rf_peer, (&diameter, None), picked),
    ensures
        planned is Some <==> picked is Some,
        planned matches Some(plan) ==> {
            &&& opt_text(picked) == Some(plan.peer@)
            &&& plan.call matches ClientCall::Sar { public_identity: its_public_identity, server_name: its_server_name, assignment_type: its_assignment_type }
            &&& its_public_identity == public_identity
            &&& its_server_name@ == match server_name {
                Some(text) => text@,
                None => ""@,
            }
            &&& its_assignment_type == assignment_type
        },
{
}

/// The request for a location carries each value in its own place and goes to the
/// peer that is connected first; there is none without such a peer.
pub proof fn cx_lir_carries_its_values(
    diameter: PyDiameter,
    public_identity: String,
    picked: Option<String>,
    planned: Option<PlannedCall>,
)
    requires
        call_ensures(PyDiameter::cx_lir, (&diameter, public_identity), planned),
        call_ensures(PyDiameter::pick_rf_peer, (&diameter, None), picked),
    ensures
        planned is Some <==> picked is Some,
        planned matches Some(plan) ==> {
            &&& opt_text(picked) == Some(plan.peer@)
            &&& plan.call matches ClientCall::Lir { public_identity: its_public_identity }
            &&& its_public_identity == public_identity
        },
{
}

/// The request for authentication vectors carries each value in its own place and goes to the
/// peer that is named, or to the first; there is none without such a peer.
pub proof fn s6a_air_carries_its_values(
    diameter: PyDiameter,
    imsi: String,
    visited_plmn_id: Vec<u8>,
    num_vectors: u32,
    immediate_response_preferred: bool,
    resync_info: Option<Vec<u8>>,
    peer: Option<&str>,
    picked: Option<String>,
    planned: Option<PlannedCall>,
)
    requires
        call_ensures(PyDiameter::s6a_air, (&diameter, imsi, visited_plmn_id, num_vectors, immediate_response_preferred, resync_info, peer), planned),
        call_ensures(PyDiameter::pick_rf_peer, (&diameter, peer), picked),
    ensures
        planned is Some <==> picked is Some,
        planned matches Some(plan) ==> {
            &&& opt_text(picked) == Some(plan.peer@)
            &&& plan.call matches ClientCall::Air { imsi: its_imsi, visited_plmn_id: its_visited_plmn_id, num_vectors: its_num_vectors, immediate_response_preferred: its_immediate_response_preferred, resync_info: its_resync_info }
            &&& its_imsi == imsi
            &&& its_visited_plmn_id == visited_plmn_id
            &&& its_num_vectors == num_vectors
            &&& its_immediate_response_preferred == immediate_response_preferred
            &&& its_resync_info == resync_info
        },
{
}

/// The request for a location update carries each value in its own place and goes to the
/// peer that is named, or to the first; there is none without such a peer.
pub proof fn s6a_ulr_carries_its_values(
    diameter: PyDiameter,
    imsi: String,
    visited_plmn_id: Vec<u8>,
    rat_type: u32,
    ulr_flags: u32,
    peer: Option<&str>,
    picked: Option<String>,
    planned: Option<PlannedCall>,
)
    requires
        call_ensures(PyDiameter::s6a_ulr, (&diameter, imsi, visited_plmn_id, rat_type, ulr_flags, peer), planned),
        call_ensures(PyDiameter::pick_rf_peer, (&diameter, peer), picked),
    ensures
        planned is Some <==> picked is Some,
        planned matches Some(plan) ==> {
            &&& opt_text(picked) == Some(plan.peer@)
            &&& plan.call matches ClientCall::Ulr { imsi: its_imsi, visited_plmn_id: its_visited_plmn_id, rat_type: its_rat_type, ulr_flags: its_ulr_flags }
            &&& its_imsi == imsi
            &&& its_visited_plmn_id == visited_plmn_id
            &&& its_rat_type == rat_type
            &&& its_ulr_flags == ulr_flags
        },
{
}

/// The request for a purge carries each value in its own place and goes to the
/// peer that is named, or to the first; there is none without such a peer.
pub proof fn s6a_purge_ue_carries_its_values(
    diameter: PyDiameter,
    imsi: String,
    pur_flags: Option<u32>,
    peer: Option<&str>,
    picked: Option<String>,
    planned: Option<PlannedCall>,
)
    requires
        call_ensures(PyDiameter::s6a_purge_ue, (&diameter, imsi, pur_flags, peer), planned),
        call_ensures(PyDiameter::pick_rf_peer, (&diameter, peer), picked),
    ensures
        planned is Some <==> picked is Some,
        planned matches Some(plan) ==> {
            &&& opt_text(picked) == Some(plan.peer@)
            &&& plan.call matches ClientCall::PurgeUe { imsi: its_imsi, pur_flags: its_pur_flags }
            &&& its_imsi == imsi
            &&& its_pur_flags == pur_flags
        },
{
}

/// The request for a profile update carries each value in its own place and goes to the
/// peer that is connected first; there is none without such a peer.
pub proof fn sh_pur_carries_its_values(
    diameter: PyDiameter,
    public_identity: String,
    data_reference: u32,
    xml: String,
    service_indication: Option<String>,
    picked: Option<String>,
    planned: Option<PlannedCall>,
)
    requires
        call_ensures(PyDiameter::sh_pur, (&diameter, public_identity, data_reference, xml, service_indication), planned),
        call_ensures(PyDiameter::pick_rf_peer, (&diameter, None), picked),
    ensures
        planned is Some <==> picked is Some,
        planned matches Some(plan) ==> {
            &&& opt_text(picked) == Some(plan.peer@)
            &&& plan.call matches ClientCall::Pur { public_identity: its_public_identity, data_reference: its_data_reference, xml: its_xml, service_indication: its_service_indication }
            &&& its_public_identity == public_identity
            &&& its_data_reference == data_reference
            &&& its_xml == xml
            &&& its_service_indication == service_indication
        },
{
}

/// The request for routing information carries each value in its own place and goes to the
/// peer that is connected first; there is none without such a peer.
pub proof fn s6c_srr_carries_its_values(
    diameter: PyDiameter,
    msisdn: String,
    sc_address: String,
    sm_rp_mti: Option<u32>,
    picked: Option<String>,
    planned: Option<PlannedCall>,
)
    requires
        call_ensures(PyDiameter::s6c_srr, (&diameter, msisdn, sc_address, sm_rp_mti), planned),
        call_ensures(PyDiameter::pick_rf_peer, (&diameter, None), picked),
    ensures
        planned is Some <==> picked is Some,
        planned matches Some(plan) ==> {
            &&& opt_text(picked) == Some(plan.peer@)
            &&& plan.call matches ClientCall::Srr { msisdn: its_msisdn, sc_address: its_sc_address, sm_rp_mti: its_sm_rp_mti }
            &&& its_msisdn == msisdn
            &&& its_sc_address == sc_address
            &&& its_sm_rp_mti == sm_rp_mti
        },
{
}

/// The request for a delivery report carries each value in its own place and goes to the
/// peer that is connected first; there is none without such a peer.
pub proof fn s6c_rsr_carries_its_values(
    diameter: PyDiameter,
    user_name: String,
    sc_address: String,
    delivery_outcome: u32,
    picked: Option<String>,
    planned: Option<PlannedCall>,
)
    requires
        call_ensures(PyDiameter::s6c_rsr, (&diameter, user_name, sc_address, delivery_outcome), planned),
        call_ensures(PyDiameter::pick_rf_peer, (&diameter, None), picked),
    ensures
        planned is Some <==> picked is Some,
        planned matches Some(plan) ==> {
            &&& opt_text(picked) == Some(plan.peer@)
            &&& plan.call matches ClientCall::Rsr { user_name: its_user_name, sc_address: its_sc_address, delivery_outcome: its_delivery_outcome }
            &&& its_user_name == user_name
            &&& its_sc_address == sc_address
            &&& its_delivery_outcome == delivery_outcome
        },
{
}

/// The request for a forwarded short message carries each value in its own place and goes to the
/// peer that is connected first; there is none without such a peer.
pub proof fn sgd_tfr_carries_its_values(
    diameter: PyDiameter,
    user_name: String,
    sc_address: String,
    sm_rp_ui: Vec<u8>,
    smsmi_correlation_id: Option<String>,
    sm_rp_mti: Option<u32>,
    picked: Option<String>,
    planned: Option<PlannedCall>,
)
    requires
        call_ensures(PyDiameter::sgd_tfr, (&diameter, user_name, sc_address, sm_rp_ui, smsmi_correlation_id, sm_rp_mti), planned),
        call_ensures(PyDiameter::pick_rf_peer, (&diameter, None), picked),
    ensures
        planned is Some <==> picked is Some,
        planned matches Some(plan) ==> {
            &&& opt_text(picked) == Some(plan.peer@)
            &&& plan.call matches ClientCall::Tfr { user_name: its_user_name, sc_address: its_sc_address, sm_rp_ui: its_sm_rp_ui, smsmi_correlation_id: its_smsmi_correlation_id, sm_rp_mti: its_sm_rp_mti }
            &&& its_user_name == user_name
            &&& its_sc_address == sc_address
            &&& its_sm_rp_ui == sm_rp_ui
            &&& its_smsmi_correlation_id == smsmi_correlation_id
            &&& its_sm_rp_mti == sm_rp_mti
        },
{
}

/// The request for a profile carries each value in its own place; its references
/// are the number given, or the numbers listed, in their order.
pub proof fn sh_udr_carries_its_values(
    diameter: PyDiameter,
    public_identity: String,
    data_reference: PyValue,
    service_indication: Option<String>,
    references: Vec<u32>,
    plan: PlannedCall,
)
    requires
        call_ensures(
            PyDiameter::sh_udr,
            (&diameter, public_identity, &data_reference, service_indication),
            Ok(Some(plan)),
        ),
        call_ensures(extract_references, (&data_reference,), Ok(references)),
    ensures
        plan.call matches ClientCall::Udr {
            public_identity: its_identity,
            data_reference: its_references,
            service_indication: its_indication,
        } && its_identity == public_identity && its_references@ == references@ && its_indication
            == service_indication,
{
    if let ClientCall::Udr { data_reference: its, .. } = plan.call {
        lemma_same_numbers(its@, references@);
    }
}

/// The request for notifications carries each value in its own place.
pub proof fn sh_snr_carries_its_values(
    diameter: PyDiameter,
    public_identity: String,
    data_reference: PyValue,
    subs_req_type: u32,
    service_indication: Option<String>,
    references: Vec<u32>,
    plan: PlannedCall,
)
    requires
        call_ensures(
            PyDiameter::sh_snr,
            (&diameter, public_identity, &data_reference, subs_req_type, service_indication),
            Ok(Some(plan)),
        ),
        call_ensures(extract_references, (&data_reference,), Ok(references)),
    ensures
        plan.call matches ClientCall::Snr {
            public_identity: its_identity,
            data_reference: its_references,
            subs_req_type: its_type,
            service_indication: its_indication,
        } && its_identity == public_identity && its_references@ == references@ && its_type
            == subs_req_type && its_indication == service_indication,
{
    if let ClientCall::Snr { data_reference: its, .. } = plan.call {
        lemma_same_numbers(its@, references@);
    }
}

proof fn lemma_same_numbers(a: Seq<u32>, b: Seq<u32>)
    requires
        crate::diameter::client::numbers(a) == crate::diameter::client::numbers(b),
    ensures
        a == b,
{
    let na = crate::diameter::client::numbers(a);
    let nb = crate::diameter::client::numbers(b);
    assert(na.len() == a.len() && nb.len() == b.len());
    assert forall|i: int| 0 <= i < a.len() implies a[i] == b[i] by {
        assert(na[i] == a[i] && nb[i] == b[i]);
    }
    assert(a =~= b);
}

/// A number that stands alone is the one reference; a list is its numbers, in
/// their order.
pub proof fn references_are_read_in_order(value: PyValue, references: Vec<u32>)
    requires
        call_ensures(extract_references, (&value,), Ok(references)),
    ensures
        match value@ {
            PyText::Int(n) => references@.len() == 1 && references@[0] == n,
            PyText::List(items) => {
                &&& references@.len() == items.len()
                &&& forall|i: int|
                    0 <= i < items.len() ==> crate::laws::pyvalue::means(
                        #[trigger] items[i],
                        references@[i] as int,
                    )
            },
            _ => true,
        },
{
    let ns = crate::diameter::client::numbers(references@);
    assert(ns.len() == references@.len());
    assert forall|i: int| 0 <= i < references@.len() implies ns[i] == #[trigger] references@[i] by {}
    if let PyText::List(items) = value@ {
        crate::laws::pyvalue::lemma_ints_in_order(items, u32::MAX as int);
        assert forall|i: int| 0 <= i < items.len() implies crate::laws::pyvalue::means(
            #[trigger] items[i],
            references@[i] as int,
        ) by {
            assert(ns[i] == references@[i]);
        }
    }
    if let PyText::Int(n) = value@ {
        assert(ns =~= seq![n]);
        assert(ns[0] == references@[0]);
    }
}

/// The end of a session is asked of the peer that connected first, for that
/// session and as a logout.
pub proof fn session_end_names_its_session(
    diameter: PyDiameter,
    session_id: String,
    plan: PlannedCall,
)
    requires
        call_ensures(PyDiameter::rx_str, (&diameter, session_id), Some(plan)),
    ensures
        plan.call matches ClientCall::Str { session_id: its_session, termination_cause: cause }
            && its_session == session_id && cause == 1,
        diameter@.len() > 0 && plan.peer@ == diameter@[0],
{
}

/// Vectors are told in their order, each with its RAND, its XRES, its AUTN and
/// its key under their own names.
pub proof fn vectors_are_told_in_order(
    result_code: u32,
    vectors: Vec<EutranVector>,
    told: Option<PyValue>,
)
    requires
        call_ensures(air_result, (Some((result_code, vectors)),), told),
    ensures
        told matches Some(value) && (value@ matches PyText::Dict(d) && {
            &&& d.len() == 2
            &&& d[0] == ("result_code"@, PyText::Int(result_code as int))
            &&& d[1].0 == "vectors"@
            &&& d[1].1 matches PyText::List(items)
            &&& items.len() == vectors@.len()
            &&& forall|i: int|
                0 <= i < vectors@.len() ==> #[trigger] items[i] == PyText::Dict(
                    seq![
                        ("rand"@, PyText::Bytes(vectors@[i].rand@)),
                        ("xres"@, PyText::Bytes(vectors@[i].xres@)),
                        ("autn"@, PyText::Bytes(vectors@[i].autn@)),
                        ("kasme"@, PyText::Bytes(vectors@[i].kasme@)),
                    ],
                )
        }),
{
}

/// Routing information is told under its own keys.
pub proof fn routing_information_is_told_under_its_keys(answer: SraAnswer, told: Option<PyValue>)
    requires
        call_ensures(srr_result, (Some(answer),), told),
    ensures
        told matches Some(value) && (value@ matches PyText::Dict(d) && {
            &&& d.len() == 5
            &&& d[0] == ("result_code"@, told_number(answer.result_code))
            &&& d[1] == ("experimental_result_code"@, told_number(answer.experimental_result_code))
            &&& d[2] == ("user_name"@, told_text(answer.user_name))
            &&& d[3] == ("sgsn_number"@, told_text(answer.sgsn_number))
            &&& d[4] == ("mme_number_for_mt_sms"@, told_text(answer.mme_number_for_mt_sms))
        }),
{
}

/// A delivery report and a forwarded message are told under their own keys.
pub proof fn message_outcomes_are_told_under_their_keys(
    result_code: Option<u32>,
    experimental: Option<u32>,
    user_name: Option<String>,
    diagnostic: Option<u32>,
    reported: Option<PyValue>,
    forwarded: Option<PyValue>,
)
    requires
        call_ensures(rsr_result, (Some((result_code, experimental, user_name)),), reported),
        call_ensures(tfr_result, (Some((result_code, experimental, diagnostic)),), forwarded),
    ensures
        reported matches Some(value) && (value@ matches PyText::Dict(d) && {
            &&& d.len() == 3
            &&& d[0] == ("result_code"@, told_number(result_code))
            &&& d[1] == ("experimental_result_code"@, told_number(experimental))
            &&& d[2] == ("user_name"@, told_text(user_name))
        }),
        forwarded matches Some(value) && (value@ matches PyText::Dict(d) && {
            &&& d.len() == 3
            &&& d[0] == ("result_code"@, told_number(result_code))
            &&& d[1] == ("experimental_result_code"@, told_number(experimental))
            &&& d[2] == ("absent_user_diagnostic"@, told_number(diagnostic))
        }),
{
}

/// A location update is told under its own keys.
pub proof fn location_update_is_told_under_its_keys(
    result_code: u32,
    ula_flags: Option<u32>,
    subscribed: bool,
    told: Option<PyValue>,
)
    requires
        call_ensures(ulr_result, (Some((result_code, ula_flags, subscribed)),), told),
    ensures
        told matches Some(value) && (value@ matches PyText::Dict(d) && {
            &&& d.len() == 3
            &&& d[0] == ("result_code"@, PyText::Int(result_code as int))
            &&& d[1] == ("ula_flags"@, told_number(ula_flags))
            &&& d[2] == ("has_subscription_data"@, PyText::Bool(subscribed))
        }),
{
}

/// A result with a text beside it is told under its own keys: a server's name, a
/// user's data or a session.
pub proof fn texts_are_told_under_their_keys(
    result_code: u32,
    text: Option<String>,
    session_id: String,
    server: Option<PyValue>,
    data: Option<PyValue>,
    authorised: Option<PyValue>,
    plain: Option<PyValue>,
)
    requires
        call_ensures(server_name_result, (Some((result_code, text)),), server),
        call_ensures(user_data_result, (Some((result_code, text)),), data),
        call_ensures(aar_result, (Some((result_code, session_id)),), authorised),
        call_ensures(plain_result, (Some(result_code),), plain),
    ensures
        server matches Some(value) && (value@ matches PyText::Dict(d) && {
            &&& d.len() == 2
            &&& d[0] == ("result_code"@, PyText::Int(result_code as int))
            &&& d[1] == ("server_name"@, told_text(text))
        }),
        data matches Some(value) && (value@ matches PyText::Dict(d) && {
            &&& d.len() == 2
            &&& d[0] == ("result_code"@, PyText::Int(result_code as int))
            &&& d[1] == ("user_data"@, told_text(text))
        }),
        authorised matches Some(value) && (value@ matches PyText::Dict(d) && {
            &&& d.len() == 2
            &&& d[0] == ("result_code"@, PyText::Int(result_code as int))
            &&& d[1] == ("session_id"@, PyText::Text(session_id@))
        }),
        plain matches Some(value) && value@ == PyText::Dict(
            seq![("result_code"@, PyText::Int(result_code as int))],
        ),
{
}

/// A pool is of the peers that are named, in their order, and of the tenant that
/// is named, or else of the default one.
pub proof fn pool_is_of_the_peers_named(
    target: PyValue,
    names: Seq<PyText>,
    tenant: Option<String>,
    pool: PyPeerPool,
)
    requires
        call_ensures(peer_pool, (&target, tenant), Ok(pool)),
        target@ == PyText::List(names) || (target@ is Text && names == seq![target@]),
    ensures
        pool@.names.len() == names.len(),
        forall|i: int| 0 <= i < names.len() ==> #[trigger] names[i] == PyText::Text(pool@.names[i]),
        pool@.tenant == match tenant {
            Some(name) => name@,
            None => "default"@,
        },
{
    if target@ is List {
        crate::laws::pyvalue::lemma_texts_in_order(names);
    }
}

} // verus!
