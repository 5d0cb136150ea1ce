//! Laws of what is read from the wire and from a script's names.

use crate::bytes::be_value;
use crate::diameter::codec::{avps_text, Avp, DataText, DiameterMsg};
use crate::diameter::decode::{avps_of, read_avps};
use crate::diameter::dictionary::{
    accepted_filter_names_known_commands, command_code, validate_request_filter, Dictionary,
};
use crate::diameter::rx::{
    extract_subscription_id, media_type_from_str, FlowStatus, FlowUsage, MediaType,
};
use crate::diameter::server::BackendReply;
use crate::error::ScriptError;
use crate::laws::codec::{four_octets, lemma_four_value, three_octets};
use crate::pyvalue::{PyText, PyValue};
use crate::text::{lemma_find_char_is, lower, split, trim, trim_text};
use vstd::prelude::*;
use vstd::string::*;

verus! {

proof fn lemma_three_value(s: Seq<u8>)
    requires
        s.len() == 3,
    ensures
        be_value(s) == three_octets(s, 0),
        be_value(s) < 0x1000000,
{
    reveal_with_fuel(be_value, 4);
    let a = s.drop_last();
    let b = a.drop_last();
    assert(a.len() == 2 && b.len() == 1 && b.drop_last().len() == 0);
    assert(s.last() == s[2] && a.last() == s[1] && b.last() == s[0]);
    assert(be_value(b) == s[0]);
    assert(be_value(a) == s[0] * 256 + s[1]);
    assert(be_value(s) == (s[0] * 256 + s[1]) * 256 + s[2]);
}

/// A message is read by the places of its header: flags, command, application and
/// the two identifiers, each at its own octets. What is shorter than a header, of
/// another version, or of another length than it says is no message.
pub proof fn message_is_read_by_its_places(dict: Dictionary, wire: &[u8], read: Option<DiameterMsg>)
    requires
        call_ensures(DiameterMsg::from_wire, (&dict, wire), read),
    ensures
        wire@.len() < 20 ==> read is None,
        wire@.len() >= 20 && wire@[0] != 1 ==> read is None,
        wire@.len() >= 20 && three_octets(wire@, 1) != wire@.len() ==> read is None,
        read matches Some(msg) ==> {
            &&& msg.flags == wire@[4]
            &&& msg.command_code == three_octets(wire@, 5)
            &&& msg.application_id == four_octets(wire@, 8)
            &&& msg.hop_by_hop == four_octets(wire@, 12)
            &&& msg.end_to_end == four_octets(wire@, 16)
        },
{
    let s = wire@;
    if s.len() >= 20 {
        lemma_three_value(s.subrange(1, 4));
        lemma_three_value(s.subrange(5, 8));
        lemma_four_value(s.subrange(8, 12));
        lemma_four_value(s.subrange(12, 16));
        lemma_four_value(s.subrange(16, 20));
    }
}

/// The first AVP of a list is read by the places of its header: its code in four
/// octets, its flags in one, its length in three, and its vendor in four where
/// the flags say that it has one; the data follow, and a list that ends before
/// they do is none.
pub proof fn first_avp_is_read_by_its_places(dict: Dictionary, bytes: &[u8], read: Option<Vec<Avp>>)
    requires
        call_ensures(read_avps, (&dict, bytes), read),
        bytes@.len() > 0,
    ensures
        bytes@.len() < 8 ==> read is None,
        bytes@.len() >= 8 && three_octets(bytes@, 5) > bytes@.len() ==> read is None,
        bytes@.len() >= 8 && three_octets(bytes@, 5) < (if bytes@[4] >= 128 {
            12int
        } else {
            8int
        }) ==> read is None,
        read matches Some(avps) ==> avps@.len() > 0 && {
            let start: int = if bytes@[4] >= 128 {
                12
            } else {
                8
            };
            let end = three_octets(bytes@, 5);
            let first = avps@[0];
            &&& first.code == four_octets(bytes@, 0)
            &&& first.flags == bytes@[4]
            &&& bytes@[4] >= 128 ==> first.vendor == four_octets(bytes@, 8)
            &&& bytes@[4] < 128 ==> first.vendor == 0
            &&& start <= end <= bytes@.len()
            &&& first@.value matches DataText::Raw(data) ==> data == bytes@.subrange(start, end)
        },
{
    let s = bytes@;
    if s.len() >= 8 {
        lemma_three_value(s.subrange(5, 8));
        lemma_four_value(s.take(4));
        if s.len() >= 12 {
            lemma_four_value(s.subrange(8, 12));
        }
    }
    if read is Some {
        let avps = read->0;
        let all = avps_text(avps@);
        assert(avps_of(dict@, s) == Some(all));
        assert(all.len() == avps@.len());
        assert(all[0] == avps@[0]@);
    }
}

/// What comes back from a peer is an answer where it reads as a message, and is
/// told apart from what does not and from silence.
pub proof fn reply_is_what_came_back(
    dict: Dictionary,
    wire: Vec<u8>,
    octets: &[u8],
    read: Option<DiameterMsg>,
    reply: BackendReply,
    reason: String,
    silence: BackendReply,
)
    requires
        octets@ == wire@,
        call_ensures(DiameterMsg::from_wire, (&dict, octets), read),
        call_ensures(BackendReply::of_wire, (&dict, Ok(wire)), reply),
        call_ensures(BackendReply::of_wire, (&dict, Err(reason)), silence),
    ensures
        match read {
            Some(msg) => reply matches BackendReply::Answered(answer) && answer@ == msg@,
            None => reply is Malformed,
        },
        silence == BackendReply::Failed(reason),
{
}

/// A filter names an application before a colon and commands behind it: it is
/// accepted where the application and every command that it names are known and
/// it names a command at all.
pub proof fn filter_names_what_is_known(
    dict: Dictionary,
    filter: &str,
    app: &str,
    command: &str,
    application: String,
    title: String,
    app_text: &str,
    command_text: &str,
    id: Option<(u32, u32)>,
    code: Option<u32>,
    accepted: Result<(), ScriptError>,
)
    requires
        filter@ == app@ + seq![':'] + command@,
        forall|i: int| 0 <= i < app@.len() ==> app@[i] != ':',
        forall|i: int| 0 <= i < command@.len() ==> command@[i] != '|',
        call_ensures(trim_text, (app,), application),
        call_ensures(trim_text, (command,), title),
        app_text@ == application@,
        command_text@ == title@,
        call_ensures(Dictionary::app_id_by_name, (&dict, app_text), id),
        call_ensures(Dictionary::command_code_by_name, (&dict, command_text), code),
        call_ensures(validate_request_filter, (&dict, filter), accepted),
    ensures
        accepted is Ok <==> id is Some && code is Some && title@.len() > 0,
{
    let s = filter@;
    let at = app@.len() as int;
    assert(s[at] == ':');
    assert forall|k: int| 0 <= k < at implies s[k] != ':' by {
        assert(s[k] == app@[k]);
    }
    lemma_find_char_is(s, ':', 0, at);
    assert(s.take(at) =~= app@);
    assert(s.skip(at + 1) =~= command@);
    lemma_find_char_is(command@, '|', 0, command@.len() as int);
    let parts = split(command@, '|');
    assert(parts =~= seq![command@]);
    accepted_filter_names_known_commands(dict@, s);
    if title@.len() > 0 {
        assert(trim(parts[0]).len() > 0);
    }
}

/// A medium goes by its name, in any case, and by its number on the wire.
pub proof fn medium_goes_by_name_and_number(
    name: &str,
    read: Result<MediaType, ScriptError>,
    medium: MediaType,
    code: u32,
)
    requires
        call_ensures(media_type_from_str, (name,), read),
        call_ensures(MediaType::code, (&medium,), code),
    ensures
        read matches Ok(m) ==> lower(name@) == match m {
            MediaType::Audio => "audio"@,
            MediaType::Video => "video"@,
            MediaType::Data => "data"@,
            MediaType::Application => "application"@,
            MediaType::Control => "control"@,
            MediaType::Text => "text"@,
            MediaType::Message => "message"@,
            MediaType::Other => "other"@,
        },
        code == match medium {
            MediaType::Audio => 0u32,
            MediaType::Video => 1,
            MediaType::Data => 2,
            MediaType::Application => 3,
            MediaType::Control => 4,
            MediaType::Text => 5,
            MediaType::Message => 6,
            MediaType::Other => 0xFFFF_FFFF,
        },
{
}

/// The state and the use of a flow go by their numbers on the wire.
pub proof fn flow_goes_by_its_numbers(status: FlowStatus, usage: FlowUsage, a: u32, b: u32)
    requires
        call_ensures(FlowStatus::code, (&status,), a),
        call_ensures(FlowUsage::code, (&usage,), b),
    ensures
        a == match status {
            FlowStatus::EnabledUplink => 0u32,
            FlowStatus::EnabledDownlink => 1,
            FlowStatus::Enabled => 2,
            FlowStatus::Disabled => 3,
            FlowStatus::Removed => 4,
        },
        b == match usage {
            FlowUsage::NoInformation => 0u32,
            FlowUsage::Rtcp => 1,
            FlowUsage::AfSignalling => 2,
        },
{
}

/// A subscriber is written as the identity and its kind, in that order, the kind
/// as a number or by its name.
pub proof fn subscriber_is_written_identity_first(
    given: PyValue,
    parts: Seq<PyText>,
    identity: Seq<char>,
    read: (String, u32),
)
    requires
        given@ == PyText::Tuple(parts),
        parts.len() == 2,
        parts[0] == PyText::Text(identity),
        call_ensures(extract_subscription_id, (&given,), Ok(read)),
    ensures
        read.0@ == identity,
        match parts[1] {
            PyText::Int(n) => read.1 == n,
            PyText::Text(kind) => {
                &&& read.1 == 0 <==> lower(kind) == "e164"@ || lower(kind) == "e.164"@
                &&& read.1 == 1 <==> lower(kind) == "imsi"@
                &&& read.1 == 2 <==> lower(kind) == "sip_uri"@ || lower(kind) == "sip-uri"@ || lower(
                    kind,
                ) == "sip"@
                &&& read.1 == 3 <==> lower(kind) == "nai"@
                &&& read.1 == 4 <==> lower(kind) == "private"@
            },
            _ => true,
        },
{
    reveal_strlit("e164");
    reveal_strlit("e.164");
    reveal_strlit("imsi");
    reveal_strlit("sip_uri");
    reveal_strlit("sip-uri");
    reveal_strlit("sip");
    reveal_strlit("nai");
    reveal_strlit("private");
    assert("e164"@[0] == 'e' && "e.164"@[0] == 'e' && "imsi"@[0] == 'i' && "sip_uri"@[0] == 's'
        && "sip-uri"@[0] == 's' && "sip"@[0] == 's' && "nai"@[0] == 'n' && "private"@[0] == 'p');
}

} // verus!
