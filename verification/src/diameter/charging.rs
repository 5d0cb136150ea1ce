//! Rf offline charging (3GPP TS 32.299): the IMS and SMS envelopes of an
//! accounting record, and the records themselves.

use crate::error::{value_error, ErrorText, ScriptError};
use crate::net::{ip_of, IpAddr};
use crate::pyvalue::{PyText, PyValue};
use crate::sip::copy_opt;
use crate::text::{debug_quoted, lower, opt_str, opt_text, quote_debug, same_text, to_lower};
use vstd::prelude::*;
use vstd::string::*;

verus! {

/// The role of this node in a session.
#[derive(Clone, Copy, Debug, PartialEq, Eq, Structural)]
pub enum NodeRole {
    Originating,
    Terminating,
    Proxy,
    B2bua,
}

/// The function of this node in the network.
#[derive(Clone, Copy, Debug, PartialEq, Eq, Structural)]
pub enum NodeFunctionality {
    Scscf,
    Pcscf,
    Icscf,
    Mrfc,
    Mgcf,
    Bgcf,
    As,
    Ibcf,
    Ecscf,
    Atcf,
    Mmtel,
    Tpf,
    Atgw,
}

/// The role that a name means, without regard to case.
pub open spec fn role_of(s: Seq<char>) -> Option<NodeRole> {
    let name = lower(s);
    if name == "originating"@ {
        Some(NodeRole::Originating)
    } else if name == "terminating"@ {
        Some(NodeRole::Terminating)
    } else if name == "proxy"@ {
        Some(NodeRole::Proxy)
    } else if name == "b2bua"@ {
        Some(NodeRole::B2bua)
    } else {
        None
    }
}

impl NodeRole {
    pub fn from_str_ci(s: &str) -> (r: Option<NodeRole>)
        ensures
            r == role_of(s@),
    {
        let name = to_lower(s);
        if same_text(&name, "originating") {
            Some(NodeRole::Originating)
        } else if same_text(&name, "terminating") {
            Some(NodeRole::Terminating)
        } else if same_text(&name, "proxy") {
            Some(NodeRole::Proxy)
        } else if same_text(&name, "b2bua") {
            Some(NodeRole::B2bua)
        } else {
            None
        }
    }
}

/// The function that a name means, without regard to case.
pub open spec fn functionality_of(s: Seq<char>) -> Option<NodeFunctionality> {
    let name = lower(s);
    if name == "scscf"@ {
        Some(NodeFunctionality::Scscf)
    } else if name == "pcscf"@ {
        Some(NodeFunctionality::Pcscf)
    } else if name == "icscf"@ {
        Some(NodeFunctionality::Icscf)
    } else if name == "mrfc"@ {
        Some(NodeFunctionality::Mrfc)
    } else if name == "mgcf"@ {
        Some(NodeFunctionality::Mgcf)
    } else if name == "bgcf"@ {
        Some(NodeFunctionality::Bgcf)
    } else if name == "as"@ {
        Some(NodeFunctionality::As)
    } else if name == "ibcf"@ {
        Some(NodeFunctionality::Ibcf)
    } else if name == "ecscf"@ {
        Some(NodeFunctionality::Ecscf)
    } else if name == "atcf"@ {
        Some(NodeFunctionality::Atcf)
    } else if name == "mmtel"@ {
        Some(NodeFunctionality::Mmtel)
    } else if name == "tpf"@ {
        Some(NodeFunctionality::Tpf)
    } else if name == "atgw"@ {
        Some(NodeFunctionality::Atgw)
    } else {
        None
    }
}

impl NodeFunctionality {
    pub fn from_str_ci(s: &str) -> (r: Option<NodeFunctionality>)
        ensures
            r == functionality_of(s@),
    {
        let name = to_lower(s);
        if same_text(&name, "scscf") {
            Some(NodeFunctionality::Scscf)
        } else if same_text(&name, "pcscf") {
            Some(NodeFunctionality::Pcscf)
        } else if same_text(&name, "icscf") {
            Some(NodeFunctionality::Icscf)
        } else if same_text(&name, "mrfc") {
            Some(NodeFunctionality::Mrfc)
        } else if same_text(&name, "mgcf") {
            Some(NodeFunctionality::Mgcf)
        } else if same_text(&name, "bgcf") {
            Some(NodeFunctionality::Bgcf)
        } else if same_text(&name, "as") {
            Some(NodeFunctionality::As)
        } else if same_text(&name, "ibcf") {
            Some(NodeFunctionality::Ibcf)
        } else if same_text(&name, "ecscf") {
            Some(NodeFunctionality::Ecscf)
        } else if same_text(&name, "atcf") {
            Some(NodeFunctionality::Atcf)
        } else if same_text(&name, "mmtel") {
            Some(NodeFunctionality::Mmtel)
        } else if same_text(&name, "tpf") {
            Some(NodeFunctionality::Tpf)
        } else if same_text(&name, "atgw") {
            Some(NodeFunctionality::Atgw)
        } else {
            None
        }
    }
}

/// The keyword arguments for the IMS envelope.
pub struct ImsArgs {
    pub calling_party: Option<String>,
    pub called_party: Option<String>,
    pub sip_method: Option<String>,
    pub role_of_node: Option<String>,
    pub node_functionality: Option<String>,
    pub ims_charging_identifier: Option<String>,
    pub user_session_id: Option<String>,
    pub originating_ioi: Option<String>,
    pub terminating_ioi: Option<String>,
    pub application_server: Option<String>,
    pub application_provided_called_party_address: Option<String>,
    pub incoming_trunk_group_id: Option<String>,
    pub outgoing_trunk_group_id: Option<String>,
    pub visited_network_id: Option<String>,
    pub cause_code: Option<i32>,
}

/// The IMS envelope of a record.
pub struct ImsChargingData {
    pub calling_party: Option<String>,
    pub called_party: Option<String>,
    pub sip_method: Option<String>,
    pub ims_charging_identifier: Option<String>,
    pub user_session_id: Option<String>,
    pub originating_ioi: Option<String>,
    pub terminating_ioi: Option<String>,
    pub application_server: Option<String>,
    pub application_provided_called_party_address: Option<String>,
    pub incoming_trunk_group_id: Option<String>,
    pub outgoing_trunk_group_id: Option<String>,
    pub visited_network_id: Option<String>,
    pub role_of_node: Option<NodeRole>,
    pub node_functionality: Option<NodeFunctionality>,
    pub cause_code: Option<i32>,
}

/// No IMS argument was given.
pub open spec fn no_ims(a: ImsArgs) -> bool {
    &&& a.calling_party is None
    &&& a.called_party is None
    &&& a.sip_method is None
    &&& a.role_of_node is None
    &&& a.node_functionality is None
    &&& a.ims_charging_identifier is None
    &&& a.user_session_id is None
    &&& a.originating_ioi is None
    &&& a.terminating_ioi is None
    &&& a.application_server is None
    &&& a.application_provided_called_party_address is None
    &&& a.incoming_trunk_group_id is None
    &&& a.outgoing_trunk_group_id is None
    &&& a.visited_network_id is None
    &&& a.cause_code is None
}

/// The role that an argument names, or what is wrong with it.
pub open spec fn role_arg(a: Option<Seq<char>>) -> Result<Option<NodeRole>, ErrorText> {
    match a {
        None => Ok(None),
        Some(value) => match role_of(value) {
            Some(role) => Ok(Some(role)),
            None => Err(
                value_error(
                    "unknown role_of_node "@ + debug_quoted(value)
                        + "; expected one of 'originating'/'terminating'/'proxy'/'b2bua'"@,
                ),
            ),
        },
    }
}

/// The function that an argument names, or what is wrong with it.
pub open spec fn functionality_arg(a: Option<Seq<char>>) -> Result<Option<NodeFunctionality>, ErrorText> {
    match a {
        None => Ok(None),
        Some(value) => match functionality_of(value) {
            Some(func) => Ok(Some(func)),
            None => Err(
                value_error(
                    "unknown node_functionality "@ + debug_quoted(value)
                        + "; expected one of 'scscf'/'pcscf'/'icscf'/'mrfc'/'mgcf'/'bgcf'/'as'/'ibcf'/'ecscf'/'atcf'/'mmtel'/'tpf'/'atgw'"@,
                ),
            ),
        },
    }
}

/// An envelope carries what the arguments gave.
pub open spec fn carries_ims(d: ImsChargingData, a: ImsArgs) -> bool {
    &&& opt_text(d.calling_party) == opt_text(a.calling_party)
    &&& opt_text(d.called_party) == opt_text(a.called_party)
    &&& opt_text(d.sip_method) == opt_text(a.sip_method)
    &&& opt_text(d.ims_charging_identifier) == opt_text(a.ims_charging_identifier)
    &&& opt_text(d.user_session_id) == opt_text(a.user_session_id)
    &&& opt_text(d.originating_ioi) == opt_text(a.originating_ioi)
    &&& opt_text(d.terminating_ioi) == opt_text(a.terminating_ioi)
    &&& opt_text(d.application_server) == opt_text(a.application_server)
    &&& opt_text(d.application_provided_called_party_address) == opt_text(a.application_provided_called_party_address)
    &&& opt_text(d.incoming_trunk_group_id) == opt_text(a.incoming_trunk_group_id)
    &&& opt_text(d.outgoing_trunk_group_id) == opt_text(a.outgoing_trunk_group_id)
    &&& opt_text(d.visited_network_id) == opt_text(a.visited_network_id)
    &&& role_arg(opt_text(a.role_of_node)) == Ok::<Option<NodeRole>, ErrorText>(d.role_of_node)
    &&& functionality_arg(opt_text(a.node_functionality)) == Ok::<Option<NodeFunctionality>, ErrorText>(d.node_functionality)
    &&& d.cause_code == a.cause_code
}

/// What is wrong with the IMS arguments: the role first, then the function.
pub open spec fn ims_error(a: ImsArgs) -> Option<ErrorText> {
    if no_ims(a) {
        None
    } else {
        match role_arg(opt_text(a.role_of_node)) {
            Err(e) => Some(e),
            Ok(_) => match functionality_arg(opt_text(a.node_functionality)) {
                Err(e) => Some(e),
                Ok(_) => None,
            },
        }
    }
}

/// Builds the IMS envelope; there is none where no IMS argument was given.
pub fn build_ims_data(a: &ImsArgs) -> (r: Result<Option<ImsChargingData>, ScriptError>)
    ensures
        match r {
            Ok(None) => no_ims(*a),
            Ok(Some(d)) => !no_ims(*a) && ims_error(*a) is None && carries_ims(d, *a),
            Err(e) => ims_error(*a) == Some(e@),
        },
{
    let nothing_set = a.calling_party.is_none()
        && a.called_party.is_none()
        && a.sip_method.is_none()
        && a.role_of_node.is_none()
        && a.node_functionality.is_none()
        && a.ims_charging_identifier.is_none()
        && a.user_session_id.is_none()
        && a.originating_ioi.is_none()
        && a.terminating_ioi.is_none()
        && a.application_server.is_none()
        && a.application_provided_called_party_address.is_none()
        && a.incoming_trunk_group_id.is_none()
        && a.outgoing_trunk_group_id.is_none()
        && a.visited_network_id.is_none()
        && a.cause_code.is_none();
    if nothing_set {
        return Ok(None);
    }
    let role = match &a.role_of_node {
        Some(value) => match NodeRole::from_str_ci(value) {
            Some(role) => Some(role),
            None => {
                return Err(
                    ScriptError::value(
                        "unknown role_of_node ".to_owned().concat(&quote_debug(value)).concat(
                            "; expected one of 'originating'/'terminating'/'proxy'/'b2bua'",
                        ),
                    ),
                );
            },
        },
        None => None,
    };
    let func = match &a.node_functionality {
        Some(value) => match NodeFunctionality::from_str_ci(value) {
            Some(func) => Some(func),
            None => {
                return Err(
                    ScriptError::value(
                        "unknown node_functionality ".to_owned().concat(&quote_debug(value)).concat(
                            "; expected one of 'scscf'/'pcscf'/'icscf'/'mrfc'/'mgcf'/'bgcf'/'as'/'ibcf'/'ecscf'/'atcf'/'mmtel'/'tpf'/'atgw'",
                        ),
                    ),
                );
            },
        },
        None => None,
    };
    Ok(
        Some(
            ImsChargingData {
                calling_party: copy_opt(&a.calling_party),
                called_party: copy_opt(&a.called_party),
                sip_method: copy_opt(&a.sip_method),
                ims_charging_identifier: copy_opt(&a.ims_charging_identifier),
                user_session_id: copy_opt(&a.user_session_id),
                originating_ioi: copy_opt(&a.originating_ioi),
                terminating_ioi: copy_opt(&a.terminating_ioi),
                application_server: copy_opt(&a.application_server),
                application_provided_called_party_address: copy_opt(&a.application_provided_called_party_address),
                incoming_trunk_group_id: copy_opt(&a.incoming_trunk_group_id),
                outgoing_trunk_group_id: copy_opt(&a.outgoing_trunk_group_id),
                visited_network_id: copy_opt(&a.visited_network_id),
                role_of_node: role,
                node_functionality: func,
                cause_code: a.cause_code,
            },
        ),
    )
}

/// The address that an argument names, or what is wrong with it.
pub open spec fn ip_arg(label: Seq<char>, a: Option<Seq<char>>) -> Result<Option<IpAddr>, ErrorText> {
    match a {
        None => Ok(None),
        Some(text) => match ip_of(text) {
            Some(ip) => Ok(Some(ip)),
            None => Err(
                value_error(
                    label + " expects an IPv4/IPv6 literal, got "@ + debug_quoted(text),
                ),
            ),
        },
    }
}

/// Reads an address argument.
pub fn parse_optional_ip(label: &str, value: &Option<String>) -> (r: Result<Option<IpAddr>, ScriptError>)
    ensures
        match r {
            Ok(ip) => ip_arg(label@, opt_text(*value)) == Ok::<Option<IpAddr>, ErrorText>(ip),
            Err(e) => ip_arg(label@, opt_text(*value)) == Err::<Option<IpAddr>, ErrorText>(e@),
        },
{
    match value {
        None => Ok(None),
        Some(text) => match IpAddr::parse(text) {
            Some(ip) => Ok(Some(ip)),
            None => Err(
                ScriptError::value(
                    label.to_owned().concat(" expects an IPv4/IPv6 literal, got ").concat(
                        &quote_debug(text),
                    ),
                ),
            ),
        },
    }
}

/// The keyword arguments for the SMS envelope. The discharge time is in
/// nanoseconds of Unix time.
pub struct SmsArgs {
    pub originator_address: Option<String>,
    pub recipient_address: Option<String>,
    pub originator_sccp_address: Option<String>,
    pub recipient_sccp_address: Option<String>,
    pub sm_message_type: Option<u32>,
    pub reply_path_requested: Option<u32>,
    pub sm_user_data_header: Option<Vec<u8>>,
    pub sm_service_type: Option<u32>,
    pub sms_node: Option<u32>,
    pub sm_discharge_time: Option<u64>,
    pub number_of_messages_sent: Option<u32>,
    pub client_address: Option<String>,
    pub data_coding_scheme: Option<i32>,
    pub sms_result: Option<u32>,
    pub sm_protocol_id: Option<Vec<u8>>,
    pub sm_status: Option<Vec<u8>>,
    pub application_port_identifier: Option<u32>,
    pub external_identifier: Option<String>,
    pub sm_device_trigger_indicator: Option<u32>,
    pub mtc_iwf_address: Option<String>,
}

/// The SMS envelope of a record.
pub struct SmsChargingData {
    pub originator_address: Option<String>,
    pub recipient_address: Option<String>,
    pub originator_sccp_address: Option<IpAddr>,
    pub recipient_sccp_address: Option<IpAddr>,
    pub sm_message_type: Option<u32>,
    pub reply_path_requested: Option<u32>,
    pub sm_user_data_header: Option<Vec<u8>>,
    pub sm_service_type: Option<u32>,
    pub sms_node: Option<u32>,
    pub sm_discharge_time: Option<u64>,
    pub number_of_messages_sent: Option<u32>,
    pub client_address: Option<IpAddr>,
    pub data_coding_scheme: Option<i32>,
    pub sms_result: Option<u32>,
    pub sm_protocol_id: Option<Vec<u8>>,
    pub sm_status: Option<Vec<u8>>,
    pub application_port_identifier: Option<u32>,
    pub external_identifier: Option<String>,
    pub sm_device_trigger_indicator: Option<u32>,
    pub mtc_iwf_address: Option<IpAddr>,
    pub originating_ioi: Option<String>,
    pub terminating_ioi: Option<String>,
    pub user_session_id: Option<String>,
}

/// No SMS argument was given.
pub open spec fn no_sms(a: SmsArgs) -> bool {
    &&& a.originator_address is None
    &&& a.recipient_address is None
    &&& a.originator_sccp_address is None
    &&& a.recipient_sccp_address is None
    &&& a.sm_message_type is None
    &&& a.reply_path_requested is None
    &&& a.sm_user_data_header is None
    &&& a.sm_service_type is None
    &&& a.sms_node is None
    &&& a.sm_discharge_time is None
    &&& a.number_of_messages_sent is None
    &&& a.client_address is None
    &&& a.data_coding_scheme is None
    &&& a.sms_result is None
    &&& a.sm_protocol_id is None
    &&& a.sm_status is None
    &&& a.application_port_identifier is None
    &&& a.external_identifier is None
    &&& a.sm_device_trigger_indicator is None
    &&& a.mtc_iwf_address is None
}

pub open spec fn opt_octets(v: Option<Vec<u8>>) -> Option<Seq<u8>> {
    match v {
        Some(b) => Some(b@),
        None => None,
    }
}

fn copy_octets(v: &Option<Vec<u8>>) -> (r: Option<Vec<u8>>)
    ensures
        opt_octets(r) == opt_octets(*v),
{
    match v {
        Some(b) => {
            let mut out: Vec<u8> = Vec::new();
            out.extend_from_slice(b.as_slice());
            assert(out@ =~= b@);
            Some(out)
        },
        None => None,
    }
}

/// An envelope carries what the arguments gave, and the arguments that it
/// shares with the IMS envelope.
pub open spec fn carries_sms(d: SmsChargingData, a: SmsArgs, ims: ImsArgs) -> bool {
    &&& opt_text(d.originator_address) == opt_text(a.originator_address)
    &&& opt_text(d.recipient_address) == opt_text(a.recipient_address)
    &&& ip_arg("originator_sccp_address"@, opt_text(a.originator_sccp_address)) == Ok::<Option<IpAddr>, ErrorText>(d.originator_sccp_address)
    &&& ip_arg("recipient_sccp_address"@, opt_text(a.recipient_sccp_address)) == Ok::<Option<IpAddr>, ErrorText>(d.recipient_sccp_address)
    &&& d.sm_message_type == a.sm_message_type
    &&& d.reply_path_requested == a.reply_path_requested
    &&& opt_octets(d.sm_user_data_header) == opt_octets(a.sm_user_data_header)
    &&& d.sm_service_type == a.sm_service_type
    &&& d.sms_node == a.sms_node
    &&& d.sm_discharge_time == a.sm_discharge_time
    &&& d.number_of_messages_sent == a.number_of_messages_sent
    &&& ip_arg("client_address"@, opt_text(a.client_address)) == Ok::<Option<IpAddr>, ErrorText>(d.client_address)
    &&& d.data_coding_scheme == a.data_coding_scheme
    &&& d.sms_result == a.sms_result
    &&& opt_octets(d.sm_protocol_id) == opt_octets(a.sm_protocol_id)
    &&& opt_octets(d.sm_status) == opt_octets(a.sm_status)
    &&& d.application_port_identifier == a.application_port_identifier
    &&& opt_text(d.external_identifier) == opt_text(a.external_identifier)
    &&& d.sm_device_trigger_indicator == a.sm_device_trigger_indicator
    &&& ip_arg("mtc_iwf_address"@, opt_text(a.mtc_iwf_address)) == Ok::<Option<IpAddr>, ErrorText>(d.mtc_iwf_address)
    &&& opt_text(d.originating_ioi) == opt_text(ims.originating_ioi)
    &&& opt_text(d.terminating_ioi) == opt_text(ims.terminating_ioi)
    &&& opt_text(d.user_session_id) == opt_text(ims.user_session_id)
}

/// What is wrong with the SMS arguments: the first address that is none.
pub open spec fn sms_error(a: SmsArgs) -> Option<ErrorText> {
    if no_sms(a) {
        None
    } else {
        match ip_arg("originator_sccp_address"@, opt_text(a.originator_sccp_address)) {
            Err(e) => Some(e),
            Ok(_) => {
                match ip_arg("recipient_sccp_address"@, opt_text(a.recipient_sccp_address)) {
                    Err(e) => Some(e),
                    Ok(_) => {
                        match ip_arg("client_address"@, opt_text(a.client_address)) {
                            Err(e) => Some(e),
                            Ok(_) => {
                                match ip_arg("mtc_iwf_address"@, opt_text(a.mtc_iwf_address)) {
                                    Err(e) => Some(e),
                                    Ok(_) => None,
                                }
                            },
                        }
                    },
                }
            },
        }
    }
}

/// Builds the SMS envelope; there is none where no SMS argument was given.
/// The arguments shared with the IMS envelope do not call for one.
pub fn build_sms_data(a: &SmsArgs, ims: &ImsArgs) -> (r: Result<Option<SmsChargingData>, ScriptError>)
    ensures
        match r {
            Ok(None) => no_sms(*a),
            Ok(Some(d)) => !no_sms(*a) && sms_error(*a) is None && carries_sms(d, *a, *ims),
            Err(e) => sms_error(*a) == Some(e@),
        },
{
    let sms_specific_set = a.originator_address.is_some()
        || a.recipient_address.is_some()
        || a.originator_sccp_address.is_some()
        || a.recipient_sccp_address.is_some()
        || a.sm_message_type.is_some()
        || a.reply_path_requested.is_some()
        || a.sm_user_data_header.is_some()
        || a.sm_service_type.is_some()
        || a.sms_node.is_some()
        || a.sm_discharge_time.is_some()
        || a.number_of_messages_sent.is_some()
        || a.client_address.is_some()
        || a.data_coding_scheme.is_some()
        || a.sms_result.is_some()
        || a.sm_protocol_id.is_some()
        || a.sm_status.is_some()
        || a.application_port_identifier.is_some()
        || a.external_identifier.is_some()
        || a.sm_device_trigger_indicator.is_some()
        || a.mtc_iwf_address.is_some();
    if !sms_specific_set {
        return Ok(None);
    }
    let originator_sccp_address = match parse_optional_ip("originator_sccp_address", &a.originator_sccp_address) {
        Ok(ip) => ip,
        Err(e) => {
            return Err(e);
        },
    };
    let recipient_sccp_address = match parse_optional_ip("recipient_sccp_address", &a.recipient_sccp_address) {
        Ok(ip) => ip,
        Err(e) => {
            return Err(e);
        },
    };
    let client_address = match parse_optional_ip("client_address", &a.client_address) {
        Ok(ip) => ip,
        Err(e) => {
            return Err(e);
        },
    };
    let mtc_iwf_address = match parse_optional_ip("mtc_iwf_address", &a.mtc_iwf_address) {
        Ok(ip) => ip,
        Err(e) => {
            return Err(e);
        },
    };
    Ok(
        Some(
            SmsChargingData {
                originator_address: copy_opt(&a.originator_address),
                recipient_address: copy_opt(&a.recipient_address),
                originator_sccp_address,
                recipient_sccp_address,
                sm_message_type: a.sm_message_type,
                reply_path_requested: a.reply_path_requested,
                sm_user_data_header: copy_octets(&a.sm_user_data_header),
                sm_service_type: a.sm_service_type,
                sms_node: a.sms_node,
                sm_discharge_time: a.sm_discharge_time,
                number_of_messages_sent: a.number_of_messages_sent,
                client_address,
                data_coding_scheme: a.data_coding_scheme,
                sms_result: a.sms_result,
                sm_protocol_id: copy_octets(&a.sm_protocol_id),
                sm_status: copy_octets(&a.sm_status),
                application_port_identifier: a.application_port_identifier,
                external_identifier: copy_opt(&a.external_identifier),
                sm_device_trigger_indicator: a.sm_device_trigger_indicator,
                mtc_iwf_address,
                originating_ioi: copy_opt(&ims.originating_ioi),
                terminating_ioi: copy_opt(&ims.terminating_ioi),
                user_session_id: copy_opt(&ims.user_session_id),
            },
        ),
    )
}

/// The kind of an accounting record.
#[derive(Clone, Copy, Debug, PartialEq, Eq, Structural)]
pub enum AccountingRecordType {
    EventRecord,
    StartRecord,
    InterimRecord,
    StopRecord,
}

/// The keyword arguments that every record takes.
pub struct RfArgs {
    pub ims: ImsArgs,
    pub sms: SmsArgs,
    pub user_name: Option<String>,
    pub service_context_id: Option<String>,
}

/// An accounting record to send.
pub struct AccountingParams {
    pub record_type: AccountingRecordType,
    pub record_number: u32,
    pub session_id: Option<String>,
    pub user_name: Option<String>,
    pub ims_data: Option<ImsChargingData>,
    pub sms_data: Option<SmsChargingData>,
    pub service_context_id: Option<String>,
    pub termination_cause: Option<u32>,
}

/// A record carries its arguments and their envelopes.
pub open spec fn carries_record(
    p: AccountingParams,
    a: RfArgs,
    record_type: AccountingRecordType,
    record_number: u32,
    session_id: Option<Seq<char>>,
    termination_cause: Option<u32>,
) -> bool {
    &&& p.record_type == record_type
    &&& p.record_number == record_number
    &&& opt_text(p.session_id) == session_id
    &&& opt_text(p.user_name) == opt_text(a.user_name)
    &&& opt_text(p.service_context_id) == opt_text(a.service_context_id)
    &&& p.termination_cause == termination_cause
    &&& match p.ims_data {
        None => no_ims(a.ims),
        Some(d) => !no_ims(a.ims) && carries_ims(d, a.ims),
    }
    &&& match p.sms_data {
        None => no_sms(a.sms),
        Some(d) => !no_sms(a.sms) && carries_sms(d, a.sms, a.ims),
    }
}

/// What is wrong with the arguments of a record: the IMS ones first.
pub open spec fn record_error(a: RfArgs) -> Option<ErrorText> {
    match ims_error(a.ims) {
        Some(e) => Some(e),
        None => sms_error(a.sms),
    }
}

/// A record for a peer: nothing without a peer, whatever the arguments are.
pub open spec fn record_result(
    r: Result<Option<AccountingParams>, ScriptError>,
    connected: bool,
    a: RfArgs,
    record_type: AccountingRecordType,
    record_number: u32,
    session_id: Option<Seq<char>>,
    termination_cause: Option<u32>,
) -> bool {
    match r {
        Ok(None) => !connected,
        Ok(Some(p)) => connected && record_error(a) is None && carries_record(
            p,
            a,
            record_type,
            record_number,
            session_id,
            termination_cause,
        ),
        Err(e) => connected && record_error(a) == Some(e@),
    }
}

fn build_record(
    connected: bool,
    a: &RfArgs,
    record_type: AccountingRecordType,
    record_number: u32,
    session_id: Option<&str>,
    termination_cause: Option<u32>,
) -> (r: Result<Option<AccountingParams>, ScriptError>)
    ensures
        record_result(
            r,
            connected,
            *a,
            record_type,
            record_number,
            opt_str(session_id),
            termination_cause,
        ),
{
    if !connected {
        return Ok(None);
    }
    let ims_data = match build_ims_data(&a.ims) {
        Ok(d) => d,
        Err(e) => {
            return Err(e);
        },
    };
    let sms_data = match build_sms_data(&a.sms, &a.ims) {
        Ok(d) => d,
        Err(e) => {
            return Err(e);
        },
    };
    Ok(
        Some(
            AccountingParams {
                record_type,
                record_number,
                session_id: match session_id {
                    Some(id) => Some(id.to_owned()),
                    None => None,
                },
                user_name: copy_opt(&a.user_name),
                ims_data,
                sms_data,
                service_context_id: copy_opt(&a.service_context_id),
                termination_cause,
            },
        ),
    )
}

/// The record that opens an accounting session; its number is zero.
pub fn rf_acr_start(connected: bool, a: &RfArgs) -> (r: Result<Option<AccountingParams>, ScriptError>)
    ensures
        record_result(r, connected, *a, AccountingRecordType::StartRecord, 0, None, None),
{
    build_record(connected, a, AccountingRecordType::StartRecord, 0, None, None)
}

/// A record in the course of an accounting session.
pub fn rf_acr_interim(connected: bool, session_id: &str, record_number: u32, a: &RfArgs) -> (r: Result<
    Option<AccountingParams>,
    ScriptError,
>)
    ensures
        record_result(
            r,
            connected,
            *a,
            AccountingRecordType::InterimRecord,
            record_number,
            Some(session_id@),
            None,
        ),
{
    build_record(
        connected,
        a,
        AccountingRecordType::InterimRecord,
        record_number,
        Some(session_id),
        None,
    )
}

/// The record that closes an accounting session.
pub fn rf_acr_stop(
    connected: bool,
    session_id: &str,
    record_number: u32,
    termination_cause: u32,
    a: &RfArgs,
) -> (r: Result<Option<AccountingParams>, ScriptError>)
    ensures
        record_result(
            r,
            connected,
            *a,
            AccountingRecordType::StopRecord,
            record_number,
            Some(session_id@),
            Some(termination_cause),
        ),
{
    build_record(
        connected,
        a,
        AccountingRecordType::StopRecord,
        record_number,
        Some(session_id),
        Some(termination_cause),
    )
}

/// The record of a one-shot event; its number is zero.
pub fn rf_acr_event(connected: bool, a: &RfArgs) -> (r: Result<Option<AccountingParams>, ScriptError>)
    ensures
        record_result(r, connected, *a, AccountingRecordType::EventRecord, 0, None, None),
{
    build_record(connected, a, AccountingRecordType::EventRecord, 0, None, None)
}

/// What a charging function answered to a record.
pub struct AccountingAnswer {
    pub result_code: u32,
    pub session_id: Option<String>,
    pub record_number: Option<u32>,
    pub interim_interval: Option<u32>,
}

pub open spec fn text_or_none(s: Option<Seq<char>>) -> PyText {
    match s {
        Some(s) => PyText::Text(s),
        None => PyText::Nothing,
    }
}

pub open spec fn number_or_none(n: Option<u32>) -> PyText {
    match n {
        Some(n) => PyText::Int(n as int),
        None => PyText::Nothing,
    }
}

/// The dict that a record's answer gives: the session is the answered one,
/// else the one that was asked about.
pub open spec fn answer_dict(answer: AccountingAnswer, fallback: Option<Seq<char>>) -> PyText {
    PyText::Dict(
        seq![
            ("result_code"@, PyText::Int(answer.result_code as int)),
            (
                "session_id"@,
                text_or_none(
                    if answer.session_id is Some {
                        opt_text(answer.session_id)
                    } else {
                        fallback
                    },
                ),
            ),
            ("record_number"@, number_or_none(answer.record_number)),
            ("interim_interval"@, number_or_none(answer.interim_interval)),
        ],
    )
}

/// The dict that a record's answer gives to the script; nothing where the
/// exchange failed.
pub fn accounting_answer_to_dict(
    answer: Option<AccountingAnswer>,
    fallback_session_id: Option<&str>,
) -> (r: Option<PyValue>)
    ensures
        match answer {
            Some(a) => r is Some && r->0@ == answer_dict(a, opt_str(fallback_session_id)),
            None => r is None,
        },
{
    let a = match answer {
        Some(a) => a,
        None => {
            return None;
        },
    };
    let session = match &a.session_id {
        Some(id) => Some(id.clone()),
        None => match fallback_session_id {
            Some(id) => Some(id.to_owned()),
            None => None,
        },
    };
    let entries: Vec<(String, PyValue)> = vec![
        ("result_code".to_owned(), PyValue::Int(a.result_code as i128)),
        ("session_id".to_owned(), PyValue::opt_text(session)),
        ("record_number".to_owned(), PyValue::opt_u32(a.record_number)),
        ("interim_interval".to_owned(), PyValue::opt_u32(a.interim_interval)),
    ];
    let r = PyValue::dict(entries);
    assert(r@->Dict_0 =~= answer_dict(a, opt_str(fallback_session_id))->Dict_0);
    Some(r)
}

/// A record without SMS arguments never carries an SMS envelope, even where
/// it carries the identities that the two envelopes share.
pub proof fn shared_arguments_make_no_sms_envelope(
    r: Result<Option<AccountingParams>, ScriptError>,
    a: RfArgs,
    record_type: AccountingRecordType,
    record_number: u32,
    session_id: Option<Seq<char>>,
    termination_cause: Option<u32>,
)
    requires
        no_sms(a.sms),
        record_result(r, true, a, record_type, record_number, session_id, termination_cause),
    ensures
        r matches Ok(Some(p)) ==> p.sms_data is None,
        r is Err <==> ims_error(a.ims) is Some,
{
}

} // verus!
