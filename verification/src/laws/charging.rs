//! Laws of offline charging.

use crate::diameter::charging::{
    accounting_answer_to_dict, build_ims_data, build_sms_data, rf_acr_event, rf_acr_interim,
    rf_acr_start, rf_acr_stop, AccountingAnswer, AccountingParams, AccountingRecordType, ImsArgs,
    ImsChargingData, NodeFunctionality, NodeRole, RfArgs, SmsArgs, SmsChargingData,
};
use crate::error::ScriptError;
use crate::laws::pyvalue::told_number;
use crate::net::{ip_of, IpAddr};
use crate::pyvalue::{PyText, PyValue};
use crate::text::{lower, opt_text};
use vstd::prelude::*;
use vstd::string::*;

verus! {

/// The name of a role.
pub open spec fn role_name(role: NodeRole) -> Seq<char> {
    match role {
        NodeRole::Originating => "originating"@,
        NodeRole::Terminating => "terminating"@,
        NodeRole::Proxy => "proxy"@,
        NodeRole::B2bua => "b2bua"@,
    }
}

/// The name of a functionality.
pub open spec fn functionality_name(functionality: NodeFunctionality) -> Seq<char> {
    match functionality {
        NodeFunctionality::Scscf => "scscf"@,
        NodeFunctionality::Pcscf => "pcscf"@,
        NodeFunctionality::Icscf => "icscf"@,
        NodeFunctionality::Mrfc => "mrfc"@,
        NodeFunctionality::Mgcf => "mgcf"@,
        NodeFunctionality::Bgcf => "bgcf"@,
        NodeFunctionality::As => "as"@,
        NodeFunctionality::Ibcf => "ibcf"@,
        NodeFunctionality::Ecscf => "ecscf"@,
        NodeFunctionality::Atcf => "atcf"@,
        NodeFunctionality::Mmtel => "mmtel"@,
        NodeFunctionality::Tpf => "tpf"@,
        NodeFunctionality::Atgw => "atgw"@,
    }
}

/// Whether charging data for a multimedia session holds what was given, each
/// value in its own field; a role and a functionality go by their names in any
/// case.
pub open spec fn ims_as_given(args: ImsArgs, data: ImsChargingData) -> bool {
    &&& opt_text(data.calling_party) == opt_text(args.calling_party)
    &&& opt_text(data.called_party) == opt_text(args.called_party)
    &&& opt_text(data.sip_method) == opt_text(args.sip_method)
    &&& opt_text(data.ims_charging_identifier) == opt_text(args.ims_charging_identifier)
    &&& opt_text(data.user_session_id) == opt_text(args.user_session_id)
    &&& opt_text(data.originating_ioi) == opt_text(args.originating_ioi)
    &&& opt_text(data.terminating_ioi) == opt_text(args.terminating_ioi)
    &&& opt_text(data.application_server) == opt_text(args.application_server)
    &&& opt_text(data.application_provided_called_party_address) == opt_text(args.application_provided_called_party_address)
    &&& opt_text(data.incoming_trunk_group_id) == opt_text(args.incoming_trunk_group_id)
    &&& opt_text(data.outgoing_trunk_group_id) == opt_text(args.outgoing_trunk_group_id)
    &&& opt_text(data.visited_network_id) == opt_text(args.visited_network_id)
    &&& data.cause_code == args.cause_code
    &&& match data.role_of_node {
        Some(role) => args.role_of_node matches Some(name) && lower(name@) == role_name(role),
        None => args.role_of_node is None,
    }
    &&& match data.node_functionality {
        Some(functionality) => args.node_functionality matches Some(name) && lower(name@)
            == functionality_name(functionality),
        None => args.node_functionality is None,
    }
}

/// Whether an optional address is the one that a literal stands for.
pub open spec fn address_as_given(given: Option<String>, address: Option<IpAddr>) -> bool {
    match given {
        Some(text) => address is Some && ip_of(text@) == address,
        None => address is None,
    }
}

/// Whether optional octets are those that were given.
pub open spec fn octets_as_given(given: Option<Vec<u8>>, octets: Option<Vec<u8>>) -> bool {
    match given {
        Some(b) => octets matches Some(o) && o@ == b@,
        None => octets is None,
    }
}

/// Whether charging data for a short message holds what was given, each value in
/// its own field, and the operators and the session of the multimedia data.
pub open spec fn sms_as_given(args: SmsArgs, ims: ImsArgs, data: SmsChargingData) -> bool {
    &&& opt_text(data.originator_address) == opt_text(args.originator_address)
    &&& opt_text(data.recipient_address) == opt_text(args.recipient_address)
    &&& opt_text(data.external_identifier) == opt_text(args.external_identifier)
    &&& data.sm_message_type == args.sm_message_type
    &&& data.reply_path_requested == args.reply_path_requested
    &&& data.sm_service_type == args.sm_service_type
    &&& data.sms_node == args.sms_node
    &&& data.sm_discharge_time == args.sm_discharge_time
    &&& data.number_of_messages_sent == args.number_of_messages_sent
    &&& data.data_coding_scheme == args.data_coding_scheme
    &&& data.sms_result == args.sms_result
    &&& data.application_port_identifier == args.application_port_identifier
    &&& data.sm_device_trigger_indicator == args.sm_device_trigger_indicator
    &&& octets_as_given(args.sm_user_data_header, data.sm_user_data_header)
    &&& octets_as_given(args.sm_protocol_id, data.sm_protocol_id)
    &&& octets_as_given(args.sm_status, data.sm_status)
    &&& address_as_given(args.originator_sccp_address, data.originator_sccp_address)
    &&& address_as_given(args.recipient_sccp_address, data.recipient_sccp_address)
    &&& address_as_given(args.client_address, data.client_address)
    &&& address_as_given(args.mtc_iwf_address, data.mtc_iwf_address)
    &&& opt_text(data.originating_ioi) == opt_text(ims.originating_ioi)
    &&& opt_text(data.terminating_ioi) == opt_text(ims.terminating_ioi)
    &&& opt_text(data.user_session_id) == opt_text(ims.user_session_id)
}

/// Multimedia charging data holds what the script gave, each value in its own
/// field.
pub proof fn ims_data_holds_what_was_given(args: ImsArgs, data: ImsChargingData)
    requires
        call_ensures(build_ims_data, (&args,), Ok(Some(data))),
    ensures
        ims_as_given(args, data),
{
}

/// Short-message charging data holds what the script gave, each value in its own
/// field.
pub proof fn sms_data_holds_what_was_given(args: SmsArgs, ims: ImsArgs, data: SmsChargingData)
    requires
        call_ensures(build_sms_data, (&args, &ims), Ok(Some(data))),
    ensures
        sms_as_given(args, ims, data),
{
}

/// Whether an accounting record holds what was given.
pub open spec fn record_as_given(args: RfArgs, record: AccountingParams) -> bool {
    &&& opt_text(record.user_name) == opt_text(args.user_name)
    &&& opt_text(record.service_context_id) == opt_text(args.service_context_id)
    &&& record.ims_data matches Some(data) ==> ims_as_given(args.ims, data)
    &&& record.sms_data matches Some(data) ==> sms_as_given(args.sms, args.ims, data)
    &&& args.ims.calling_party is Some ==> record.ims_data is Some
    &&& args.ims.called_party is Some ==> record.ims_data is Some
    &&& args.ims.sip_method is Some ==> record.ims_data is Some
    &&& args.ims.ims_charging_identifier is Some ==> record.ims_data is Some
    &&& args.ims.user_session_id is Some ==> record.ims_data is Some
    &&& args.ims.originating_ioi is Some ==> record.ims_data is Some
    &&& args.ims.terminating_ioi is Some ==> record.ims_data is Some
    &&& args.ims.application_server is Some ==> record.ims_data is Some
    &&& args.ims.application_provided_called_party_address is Some ==> record.ims_data is Some
    &&& args.ims.incoming_trunk_group_id is Some ==> record.ims_data is Some
    &&& args.ims.outgoing_trunk_group_id is Some ==> record.ims_data is Some
    &&& args.ims.visited_network_id is Some ==> record.ims_data is Some
    &&& args.ims.role_of_node is Some ==> record.ims_data is Some
    &&& args.ims.node_functionality is Some ==> record.ims_data is Some
    &&& args.ims.cause_code is Some ==> record.ims_data is Some
    &&& args.sms.originator_address is Some ==> record.sms_data is Some
    &&& args.sms.recipient_address is Some ==> record.sms_data is Some
    &&& args.sms.external_identifier is Some ==> record.sms_data is Some
    &&& args.sms.sm_message_type is Some ==> record.sms_data is Some
    &&& args.sms.reply_path_requested is Some ==> record.sms_data is Some
    &&& args.sms.sm_service_type is Some ==> record.sms_data is Some
    &&& args.sms.sms_node is Some ==> record.sms_data is Some
    &&& args.sms.sm_discharge_time is Some ==> record.sms_data is Some
    &&& args.sms.number_of_messages_sent is Some ==> record.sms_data is Some
    &&& args.sms.data_coding_scheme is Some ==> record.sms_data is Some
    &&& args.sms.sms_result is Some ==> record.sms_data is Some
    &&& args.sms.application_port_identifier is Some ==> record.sms_data is Some
    &&& args.sms.sm_device_trigger_indicator is Some ==> record.sms_data is Some
    &&& args.sms.sm_user_data_header is Some ==> record.sms_data is Some
    &&& args.sms.sm_protocol_id is Some ==> record.sms_data is Some
    &&& args.sms.sm_status is Some ==> record.sms_data is Some
    &&& args.sms.originator_sccp_address is Some ==> record.sms_data is Some
    &&& args.sms.recipient_sccp_address is Some ==> record.sms_data is Some
    &&& args.sms.client_address is Some ==> record.sms_data is Some
    &&& args.sms.mtc_iwf_address is Some ==> record.sms_data is Some
}

/// A session's first record starts it: number nought, without a session yet, and
/// with what the script gave.
pub proof fn start_record_starts_a_session(args: RfArgs, record: AccountingParams)
    requires
        call_ensures(rf_acr_start, (true, &args), Ok(Some(record))),
    ensures
        record.record_type == AccountingRecordType::StartRecord,
        record.record_number == 0,
        record.session_id is None,
        record.termination_cause is None,
        record_as_given(args, record),
{
}

/// An event has one record: number nought, without a session, and with what the
/// script gave.
pub proof fn event_record_stands_alone(args: RfArgs, record: AccountingParams)
    requires
        call_ensures(rf_acr_event, (true, &args), Ok(Some(record))),
    ensures
        record.record_type == AccountingRecordType::EventRecord,
        record.record_number == 0,
        record.session_id is None,
        record.termination_cause is None,
        record_as_given(args, record),
{
}

/// A record in the course of a session is of that session, under the number
/// given.
pub proof fn interim_record_is_of_its_session(
    session_id: &str,
    record_number: u32,
    args: RfArgs,
    record: AccountingParams,
)
    requires
        call_ensures(rf_acr_interim, (true, session_id, record_number, &args), Ok(Some(record))),
    ensures
        record.record_type == AccountingRecordType::InterimRecord,
        record.record_number == record_number,
        opt_text(record.session_id) == Some(session_id@),
        record.termination_cause is None,
        record_as_given(args, record),
{
}

/// A session's last record is of that session, under the number given and with
/// the cause that ended it.
pub proof fn stop_record_ends_its_session(
    session_id: &str,
    record_number: u32,
    termination_cause: u32,
    args: RfArgs,
    record: AccountingParams,
)
    requires
        call_ensures(
            rf_acr_stop,
            (true, session_id, record_number, termination_cause, &args),
            Ok(Some(record)),
        ),
    ensures
        record.record_type == AccountingRecordType::StopRecord,
        record.record_number == record_number,
        opt_text(record.session_id) == Some(session_id@),
        record.termination_cause == Some(termination_cause),
        record_as_given(args, record),
{
}

/// No record is sent without a peer, and with one every record is sent or
/// refused with an error.
pub proof fn records_need_a_peer(
    session_id: &str,
    record_number: u32,
    cause: u32,
    args: RfArgs,
    connected: bool,
    started: Result<Option<AccountingParams>, ScriptError>,
    carried: Result<Option<AccountingParams>, ScriptError>,
    stopped: Result<Option<AccountingParams>, ScriptError>,
    event: Result<Option<AccountingParams>, ScriptError>,
)
    requires
        call_ensures(rf_acr_start, (connected, &args), started),
        call_ensures(rf_acr_interim, (connected, session_id, record_number, &args), carried),
        call_ensures(rf_acr_stop, (connected, session_id, record_number, cause, &args), stopped),
        call_ensures(rf_acr_event, (connected, &args), event),
    ensures
        (started matches Ok(None)) == !connected,
        (carried matches Ok(None)) == !connected,
        (stopped matches Ok(None)) == !connected,
        (event matches Ok(None)) == !connected,
        started is Err == carried is Err,
        started is Err == stopped is Err,
        started is Err == event is Err,
{
}

/// An accounting answer is told under its own keys; a session that it does not
/// name is the one that was asked about.
pub proof fn accounting_answer_is_told_under_its_keys(
    answer: AccountingAnswer,
    asked: Option<&str>,
    told: Option<PyValue>,
)
    requires
        call_ensures(accounting_answer_to_dict, (Some(answer), asked), told),
    ensures
        told matches Some(value) && (value@ matches PyText::Dict(d) && {
            &&& d.len() == 4
            &&& d[0] == ("result_code"@, PyText::Int(answer.result_code as int))
            &&& d[1].0 == "session_id"@
            &&& d[1].1 == match answer.session_id {
                Some(id) => PyText::Text(id@),
                None => match asked {
                    Some(id) => PyText::Text(id@),
                    None => PyText::Nothing,
                },
            }
            &&& d[2] == ("record_number"@, told_number(answer.record_number))
            &&& d[3] == ("interim_interval"@, told_number(answer.interim_interval))
        }),
{
}

} // verus!
