//! Laws of the Diameter answers that a script is told of.

use crate::diameter::client::{
    answer_result, extract_result_code, ip_in_cidr, member, octet_string_as_utf8, required_str,
    server_name_answer, sh_user_data_answer, user_data_answer, ClientCall,
};
use crate::diameter::generic::JsonValue;
use crate::error::ScriptError;
use crate::hex::{hex_bytes, hex_round_trip, hex_text};
use crate::laws::pyvalue::told_text;
use crate::net::{IpAddr, IpNetwork};
use crate::pyvalue::{PyText, PyValue};
use crate::text::opt_text;
use vstd::prelude::*;
use vstd::string::*;
use vstd::utf8::encode_utf8;

verus! {

/// Whether a value is the first that an answer holds under a name.
pub open spec fn holds_first(answer: JsonValue, name: Seq<char>, i: int) -> bool {
    answer matches JsonValue::Object(v) && 0 <= i < v@.len() && v@[i].0@ == name && forall|j: int|
        0 <= j < i ==> (#[trigger] v@[j]).0@ != name
}

proof fn lemma_member(v: Seq<(String, JsonValue)>, name: Seq<char>, i: int)
    requires
        0 <= i < v.len(),
        v[i].0@ == name,
        forall|j: int| 0 <= j < i ==> (#[trigger] v[j]).0@ != name,
    ensures
        member(v, name) == Some(v[i].1),
    decreases v.len(),
{
    if i > 0 {
        let rest = v.skip(1);
        assert(v[0].0@ != name);
        assert forall|j: int| 0 <= j < i - 1 implies (#[trigger] rest[j]).0@ != name by {
            assert(rest[j] == v[j + 1]);
        }
        lemma_member(rest, name, i - 1);
    }
}

/// The result of an answer is its Result-Code where that is a number of 32 bits,
/// and else zero.
pub proof fn result_is_the_result_code(answer: JsonValue, i: int, code: u32)
    requires
        call_ensures(extract_result_code, (&answer,), code),
        holds_first(answer, "Result-Code"@, i),
    ensures
        match answer->Object_0@[i].1 {
            JsonValue::Unsigned(n) => if n <= u32::MAX {
                code == n
            } else {
                code == 0
            },
            _ => code == 0,
        },
{
    lemma_member(answer->Object_0@, "Result-Code"@, i);
}

/// A text is read from the first value of its name, where that is a text.
pub proof fn text_is_read_by_name(answer: JsonValue, name: &str, i: int, text: Option<String>)
    requires
        call_ensures(required_str, (&answer, name), text),
        holds_first(answer, name@, i),
    ensures
        match answer->Object_0@[i].1 {
            JsonValue::Text(s) => opt_text(text) == Some(s@),
            _ => text is None,
        },
{
    lemma_member(answer->Object_0@, name@, i);
}

/// Octets that are shown in hexadecimal are read back as the text they encode; a
/// text that is no hexadecimal is read as it is.
pub proof fn octets_are_read_as_their_text(
    answer: JsonValue,
    name: &str,
    i: int,
    content: Seq<char>,
    text: Option<String>,
)
    requires
        call_ensures(octet_string_as_utf8, (&answer, name), text),
        holds_first(answer, name@, i),
    ensures
        answer->Object_0@[i].1 matches JsonValue::Text(s) ==> (s@ == hex_text(encode_utf8(content))
            ==> opt_text(text) == Some(content)) && (hex_bytes(s@) is None ==> opt_text(text)
            == Some(s@)),
{
    lemma_member(answer->Object_0@, name@, i);
    hex_round_trip(encode_utf8(content));
    vstd::utf8::encode_utf8_valid_utf8(content);
    vstd::utf8::encode_utf8_decode_utf8(content);
}

/// The server of a user, the user's profile and the user's data are read under
/// their own names, beside the result of the answer.
pub proof fn answers_are_read_under_their_names(
    answer: JsonValue,
    code: u32,
    server: Option<String>,
    profile: Option<String>,
    data: Option<String>,
    a: (u32, Option<String>),
    b: (u32, Option<String>),
    c: (u32, Option<String>),
)
    requires
        call_ensures(extract_result_code, (&answer,), code),
        call_ensures(required_str, (&answer, "Server-Name"), server),
        call_ensures(octet_string_as_utf8, (&answer, "User-Data"), profile),
        call_ensures(octet_string_as_utf8, (&answer, "User-Data-Sh"), data),
        call_ensures(server_name_answer, (&answer,), a),
        call_ensures(user_data_answer, (&answer,), b),
        call_ensures(sh_user_data_answer, (&answer,), c),
    ensures
        a.0 == code && opt_text(a.1) == opt_text(server),
        b.0 == code && opt_text(b.1) == opt_text(profile),
        c.0 == code && opt_text(c.1) == opt_text(data),
{
}

/// A script is told the result of its request and, by the kind of the request,
/// the server's name or the user's data.
pub proof fn answer_is_told_by_the_kind_of_request(
    call: ClientCall,
    answer: JsonValue,
    code: u32,
    server: Option<String>,
    profile: Option<String>,
    data: Option<String>,
    told: Option<PyValue>,
)
    requires
        call_ensures(extract_result_code, (&answer,), code),
        call_ensures(required_str, (&answer, "Server-Name"), server),
        call_ensures(octet_string_as_utf8, (&answer, "User-Data"), profile),
        call_ensures(octet_string_as_utf8, (&answer, "User-Data-Sh"), data),
        call_ensures(answer_result, (&call, &answer), told),
    ensures
        call is Uar || call is Lir ==> told is Some && told->0@ == PyText::Dict(
            seq![
                ("result_code"@, PyText::Int(code as int)),
                ("server_name"@, told_text(server)),
            ],
        ),
        call is Sar ==> told is Some && told->0@ == PyText::Dict(
            seq![
                ("result_code"@, PyText::Int(code as int)),
                ("user_data"@, told_text(profile)),
            ],
        ),
        call is Udr ==> told is Some && told->0@ == PyText::Dict(
            seq![("result_code"@, PyText::Int(code as int)), ("user_data"@, told_text(data))],
        ),
        call is Pur || call is Snr || call is PurgeUe ==> told is Some && told->0@ == PyText::Dict(
            seq![("result_code"@, PyText::Int(code as int))],
        ),
{
}

/// Whether an address lies in a network is whether the network covers it; a text
/// that is neither is refused.
pub proof fn address_is_in_the_network_that_covers_it(
    addr: &str,
    cidr: &str,
    ip: Option<IpAddr>,
    network: Option<IpNetwork>,
    covers: bool,
    inside: Result<bool, ScriptError>,
)
    requires
        call_ensures(IpAddr::parse, (addr,), ip),
        call_ensures(IpNetwork::parse, (cidr,), network),
        ip is Some && network is Some ==> call_ensures(
            IpNetwork::contains,
            (&network->0, &ip->0),
            covers,
        ),
        call_ensures(ip_in_cidr, (addr, cidr), inside),
    ensures
        ip is Some && network is Some ==> inside == Ok::<bool, ScriptError>(covers),
        ip is None || network is None ==> inside is Err,
{
}

} // verus!
