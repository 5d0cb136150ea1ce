//! Requests by name: a command, an application and AVPs as keyword arguments.

use super::codec::{
    append_bytes, avp_of, encode_message, encode_octet, encode_text, encode_u32, message_frame,
    VENDOR_3GPP,
};
use super::dictionary::{
    app_id, avp_name_to_snake, command_code, def_by_key, snake, AvpDef, AvpType, DefText, DictText,
    Dictionary,
};
use super::rx::{
    PeerContext, WireRequest, AVP_AUTH_APPLICATION_ID, AVP_DESTINATION_REALM, AVP_ORIGIN_HOST,
    AVP_ORIGIN_REALM, AVP_SESSION_ID,
};
use crate::bytes::{be_bytes, to_be, to_twos32, twos32};
use crate::error::{error_display, type_error, value_error, ErrorText, ScriptError};
use crate::net::{ip_of, IpAddr};
use crate::pyvalue::{
    as_bytes, as_int, as_text, as_u32, assign, assigned, entries_text, values_text, PyText,
    PyValue,
};
use crate::text::{debug_quoted, quote_debug, same_text};
use vstd::prelude::*;
use vstd::string::*;
use vstd::utf8::encode_utf8;

verus! {

pub const AVP_VENDOR_SPECIFIC_APPLICATION_ID: u32 = 260;

pub const AVP_VENDOR_ID: u32 = 266;

pub const AVP_AUTH_SESSION_STATE: u32 = 277;

pub const AVP_DESTINATION_HOST: u32 = 293;

/// The vendor that an AVP is written with: the 3GPP exactly where its entry is
/// vendor-specific.
pub open spec fn wire_vendor(def: DefText) -> u32 {
    if def.vendor_id != 0 {
        VENDOR_3GPP
    } else {
        0
    }
}

/// An AVP from a keyword argument, by the type of its dictionary entry.
pub open spec fn kwarg_wire(def: DefText, value: PyText) -> Result<Seq<u8>, ErrorText> {
    let vendor = wire_vendor(def);
    match def.data_type {
        AvpType::UTF8String | AvpType::DiameterIdentity => match as_text(value) {
            Ok(s) => Ok(avp_of(def.code, vendor, encode_utf8(s))),
            Err(e) => Err(type_error(def.name + " expects str, got "@ + error_display(e))),
        },
        AvpType::OctetString => match as_bytes(value) {
            Ok(b) => Ok(avp_of(def.code, vendor, b)),
            Err(_) => match as_text(value) {
                Ok(s) => Ok(avp_of(def.code, vendor, encode_utf8(s))),
                Err(_) => Err(type_error(def.name + " expects bytes or str"@)),
            },
        },
        AvpType::Unsigned32 | AvpType::Enumerated => match as_u32(value) {
            Ok(n) => Ok(avp_of(def.code, vendor, be_bytes(n as nat, 4))),
            Err(e) => Err(
                type_error(def.name + " expects int (u32 range), got "@ + error_display(e)),
            ),
        },
        AvpType::Unsigned64 => match as_int(value, 0, u64::MAX as int) {
            Ok(n) => Ok(avp_of(def.code, vendor, be_bytes(n as nat, 8))),
            Err(e) => Err(
                type_error(def.name + " expects int (u64 range), got "@ + error_display(e)),
            ),
        },
        AvpType::Integer32 => match as_int(value, i32::MIN as int, i32::MAX as int) {
            Ok(n) => Ok(avp_of(def.code, vendor, be_bytes(twos32(n), 4))),
            Err(e) => Err(
                type_error(def.name + " expects int (i32 range), got "@ + error_display(e)),
            ),
        },
        AvpType::Address => match as_text(value) {
            Ok(s) => match ip_of(s) {
                Some(IpAddr::V4(ip)) => Ok(
                    avp_of(def.code, vendor, seq![0u8, 1u8] + be_bytes(ip as nat, 4)),
                ),
                _ => Err(
                    value_error(
                        def.name + " invalid IPv4 address "@ + debug_quoted(s)
                            + ": invalid IPv4 address syntax"@,
                    ),
                ),
            },
            Err(e) => Err(
                type_error(def.name + " expects str (IPv4 dotted-quad), got "@ + error_display(e)),
            ),
        },
        AvpType::Time => Err(
            type_error(
                def.name + " (Time AVPs) is not supported via kwargs — use a typed helper"@,
            ),
        ),
        AvpType::Grouped => if value is Nothing {
            Ok(avp_of(def.code, vendor, Seq::empty()))
        } else {
            Err(
                type_error(
                    def.name
                        + " (Grouped AVP) requires a typed helper — scripted nested-AVP construction is not yet supported"@,
                ),
            )
        },
    }
}

/// Writes an AVP from a keyword argument.
pub fn encode_kwarg_avp(def: &AvpDef, value: &PyValue) -> (r: Result<Vec<u8>, ScriptError>)
    ensures
        match r {
            Ok(b) => kwarg_wire(def@, value@) == Ok::<Seq<u8>, ErrorText>(b@),
            Err(e) => kwarg_wire(def@, value@) == Err::<Seq<u8>, ErrorText>(e@),
        },
{
    let vendor: u32 = if def.vendor_id != 0 {
        VENDOR_3GPP
    } else {
        0
    };
    match def.data_type {
        AvpType::UTF8String | AvpType::DiameterIdentity => match value.as_text() {
            Ok(s) => Ok(encode_text(def.code, vendor, &s)),
            Err(e) => Err(
                ScriptError::type_(def.name.clone().concat(" expects str, got ").concat(&e.display())),
            ),
        },
        AvpType::OctetString => match value.as_bytes() {
            Ok(b) => Ok(encode_octet(def.code, vendor, b.as_slice())),
            Err(_) => match value.as_text() {
                Ok(s) => Ok(encode_text(def.code, vendor, &s)),
                Err(_) => Err(ScriptError::type_(def.name.clone().concat(" expects bytes or str"))),
            },
        },
        AvpType::Unsigned32 | AvpType::Enumerated => match value.as_u32() {
            Ok(n) => Ok(encode_u32(def.code, vendor, n)),
            Err(e) => Err(
                ScriptError::type_(
                    def.name.clone().concat(" expects int (u32 range), got ").concat(&e.display()),
                ),
            ),
        },
        AvpType::Unsigned64 => match value.as_int(0, u64::MAX as i128) {
            Ok(n) => Ok(encode_octet(def.code, vendor, to_be(n as u64, 8).as_slice())),
            Err(e) => Err(
                ScriptError::type_(
                    def.name.clone().concat(" expects int (u64 range), got ").concat(&e.display()),
                ),
            ),
        },
        AvpType::Integer32 => match value.as_int(i32::MIN as i128, i32::MAX as i128) {
            Ok(n) => Ok(
                encode_octet(def.code, vendor, to_be(to_twos32(n as i32), 4).as_slice()),
            ),
            Err(e) => Err(
                ScriptError::type_(
                    def.name.clone().concat(" expects int (i32 range), got ").concat(&e.display()),
                ),
            ),
        },
        AvpType::Address => match value.as_text() {
            Ok(s) => match IpAddr::parse(&s) {
                Some(IpAddr::V4(ip)) => {
                    let mut data: Vec<u8> = vec![0u8, 1u8];
                    append_bytes(&mut data, to_be(ip as u64, 4).as_slice());
                    assert(data@ =~= seq![0u8, 1u8] + be_bytes(ip as nat, 4));
                    Ok(encode_octet(def.code, vendor, data.as_slice()))
                },
                _ => Err(
                    ScriptError::value(
                        def.name.clone().concat(" invalid IPv4 address ").concat(
                            &quote_debug(&s),
                        ).concat(": invalid IPv4 address syntax"),
                    ),
                ),
            },
            Err(e) => Err(
                ScriptError::type_(
                    def.name.clone().concat(" expects str (IPv4 dotted-quad), got ").concat(
                        &e.display(),
                    ),
                ),
            ),
        },
        AvpType::Time => Err(
            ScriptError::type_(
                def.name.clone().concat(
                    " (Time AVPs) is not supported via kwargs — use a typed helper",
                ),
            ),
        ),
        AvpType::Grouped => if value.is_nothing() {
            let empty: Vec<u8> = Vec::new();
            assert(empty@ =~= Seq::<u8>::empty());
            Ok(encode_octet(def.code, vendor, empty.as_slice()))
        } else {
            Err(
                ScriptError::type_(
                    def.name.clone().concat(
                        " (Grouped AVP) requires a typed helper — scripted nested-AVP construction is not yet supported",
                    ),
                ),
            )
        },
    }
}

/// Names that are arguments of the request itself and never AVPs.
pub open spec fn is_reserved(key: Seq<char>) -> bool {
    key == "peer"@ || key == "timeout_ms"@ || key == "command"@ || key == "application"@
}

fn reserved(key: &str) -> (r: bool)
    ensures
        r == is_reserved(key@),
{
    same_text(key, "peer") || same_text(key, "timeout_ms") || same_text(key, "command")
        || same_text(key, "application")
}

/// The AVPs of the first `n` keyword arguments, or the first error among them.
pub open spec fn kwargs_wire(dict: DictText, kwargs: Seq<(Seq<char>, PyText)>, n: nat) -> Result<
    Seq<u8>,
    ErrorText,
>
    decreases n,
{
    if n == 0 {
        Ok(Seq::empty())
    } else {
        match kwargs_wire(dict, kwargs, (n - 1) as nat) {
            Err(e) => Err(e),
            Ok(before) => {
                let (key, value) = kwargs[n - 1];
                if is_reserved(key) {
                    Ok(before)
                } else {
                    match def_by_key(dict.avps, key) {
                        None => Err(value_error("unknown AVP kwarg: "@ + key)),
                        Some(def) => match kwarg_wire(def, value) {
                            Ok(b) => Ok(before + b),
                            Err(e) => Err(e),
                        },
                    }
                }
            },
        }
    }
}

proof fn lemma_kwargs_error(dict: DictText, kwargs: Seq<(Seq<char>, PyText)>, n: nat, m: nat)
    requires
        n <= m,
        kwargs_wire(dict, kwargs, n) is Err,
    ensures
        kwargs_wire(dict, kwargs, m) == kwargs_wire(dict, kwargs, n),
    decreases m,
{
    if n < m {
        lemma_kwargs_error(dict, kwargs, n, (m - 1) as nat);
    }
}

/// The AVPs that every such request starts with.
pub open spec fn request_head(peer: PeerContext, vendor: u32, app: u32) -> Seq<u8> {
    avp_of(AVP_SESSION_ID, 0, encode_utf8(peer.new_session_id@)) + avp_of(
        AVP_ORIGIN_HOST,
        0,
        encode_utf8(peer.origin_host@),
    ) + avp_of(AVP_ORIGIN_REALM, 0, encode_utf8(peer.origin_realm@)) + avp_of(
        AVP_DESTINATION_REALM,
        0,
        encode_utf8(peer.destination_realm@),
    ) + (match peer.destination_host {
        Some(host) => avp_of(AVP_DESTINATION_HOST, 0, encode_utf8(host@)),
        None => Seq::empty(),
    }) + avp_of(AVP_AUTH_SESSION_STATE, 0, be_bytes(1, 4)) + avp_of(
        AVP_VENDOR_SPECIFIC_APPLICATION_ID,
        0,
        avp_of(AVP_VENDOR_ID, 0, be_bytes(vendor as nat, 4)) + avp_of(
            AVP_AUTH_APPLICATION_ID,
            0,
            be_bytes(app as nat, 4),
        ),
    )
}

/// What `send_request` puts on the wire: nothing without a peer, else the
/// request, or what is wrong with the arguments. An unknown command or
/// application is an error even without a peer.
pub open spec fn generic_request(
    dict: DictText,
    command: Seq<char>,
    application: Seq<char>,
    peer: Option<PeerContext>,
    kwargs: Seq<(Seq<char>, PyText)>,
) -> Result<Option<Seq<u8>>, ErrorText> {
    match command_code(dict.commands, command) {
        None => Err(value_error("unknown Diameter command name: "@ + command)),
        Some(code) => match app_id(dict.applications, application) {
            None => Err(value_error("unknown Diameter application name: "@ + application)),
            Some((vendor, app)) => match peer {
                None => Ok(None),
                Some(p) => match kwargs_wire(dict, kwargs, kwargs.len()) {
                    Err(e) => Err(e),
                    Ok(avps) => Ok(
                        Some(
                            message_frame(
                                0xC0,
                                code,
                                app,
                                p.hop_by_hop,
                                p.end_to_end,
                                request_head(p, vendor, app) + avps,
                            ),
                        ),
                    ),
                },
            },
        },
    }
}

fn encode_request_head(peer: &PeerContext, vendor: u32, app: u32) -> (r: Vec<u8>)
    ensures
        r@ == request_head(*peer, vendor, app),
{
    let mut out = encode_text(AVP_SESSION_ID, 0, &peer.new_session_id);
    append_bytes(&mut out, encode_text(AVP_ORIGIN_HOST, 0, &peer.origin_host).as_slice());
    append_bytes(&mut out, encode_text(AVP_ORIGIN_REALM, 0, &peer.origin_realm).as_slice());
    append_bytes(
        &mut out,
        encode_text(AVP_DESTINATION_REALM, 0, &peer.destination_realm).as_slice(),
    );
    match &peer.destination_host {
        Some(host) => append_bytes(
            &mut out,
            encode_text(AVP_DESTINATION_HOST, 0, host).as_slice(),
        ),
        None => {
            assert(out@ + Seq::<u8>::empty() =~= out@);
        },
    }
    append_bytes(&mut out, encode_u32(AVP_AUTH_SESSION_STATE, 0, 1).as_slice());
    let mut inner = encode_u32(AVP_VENDOR_ID, 0, vendor);
    append_bytes(&mut inner, encode_u32(AVP_AUTH_APPLICATION_ID, 0, app).as_slice());
    append_bytes(
        &mut out,
        encode_octet(AVP_VENDOR_SPECIFIC_APPLICATION_ID, 0, inner.as_slice()).as_slice(),
    );
    out
}

/// Builds a request from a command name, an application name and AVPs by name;
/// `None` where no peer is connected.
pub fn send_request(
    dict: &Dictionary,
    command: &str,
    application: &str,
    peer: Option<&PeerContext>,
    avps: &Vec<(String, PyValue)>,
) -> (r: Result<Option<WireRequest>, ScriptError>)
    ensures
        ({
            let want = generic_request(
                dict@,
                command@,
                application@,
                match peer {
                    Some(p) => Some(*p),
                    None => None,
                },
                entries_text(avps@),
            );
            match r {
                Ok(Some(request)) => want == Ok::<Option<Seq<u8>>, ErrorText>(Some(request.wire@))
                    && peer is Some && request.session_id@ == peer->0.new_session_id@,
                Ok(None) => want == Ok::<Option<Seq<u8>>, ErrorText>(None),
                Err(e) => want == Err::<Option<Seq<u8>>, ErrorText>(e@),
            }
        }),
{
    let code = match dict.command_code_by_name(command) {
        Some(code) => code,
        None => {
            return Err(
                ScriptError::value("unknown Diameter command name: ".to_owned().concat(command)),
            );
        },
    };
    let (vendor, app) = match dict.app_id_by_name(application) {
        Some(found) => found,
        None => {
            return Err(
                ScriptError::value(
                    "unknown Diameter application name: ".to_owned().concat(application),
                ),
            );
        },
    };
    let context = match peer {
        Some(context) => context,
        None => {
            return Ok(None);
        },
    };
    let ghost kwargs = entries_text(avps@);
    let mut body: Vec<u8> = Vec::new();
    let mut i: usize = 0;
    while i < avps.len()
        invariant
            i <= avps@.len(),
            kwargs == entries_text(avps@),
            kwargs_wire(dict@, kwargs, i as nat) == Ok::<Seq<u8>, ErrorText>(body@),
            peer is Some,
            command_code(dict@.commands, command@) is Some,
            app_id(dict@.applications, application@) is Some,
        decreases avps@.len() - i,
    {
        let key = &avps[i].0;
        assert(kwargs[i as int] == (avps@[i as int].0@, avps@[i as int].1@));
        if !reserved(key) {
            match dict.lookup_avp_by_python_name(key) {
                None => {
                    proof {
                        lemma_kwargs_error(dict@, kwargs, (i + 1) as nat, kwargs.len());
                    }
                    return Err(ScriptError::value("unknown AVP kwarg: ".to_owned().concat(key)));
                },
                Some(def) => match encode_kwarg_avp(def, &avps[i].1) {
                    Ok(bytes) => {
                        append_bytes(&mut body, bytes.as_slice());
                    },
                    Err(e) => {
                        proof {
                            lemma_kwargs_error(dict@, kwargs, (i + 1) as nat, kwargs.len());
                        }
                        return Err(e);
                    },
                },
            }
        }
        i += 1;
    }
    let mut payload = encode_request_head(context, vendor, app);
    append_bytes(&mut payload, body.as_slice());
    let wire = encode_message(
        0xC0,
        code,
        app,
        context.hop_by_hop,
        context.end_to_end,
        payload.as_slice(),
    );
    Ok(Some(WireRequest { wire, session_id: context.new_session_id.clone() }))
}

/// A decoded answer. A number is one that fits 64 bits without a sign, one
/// that fits them with a sign, or a floating-point number as its bit pattern.
pub enum JsonValue {
    Null,
    Bool(bool),
    Unsigned(u64),
    Signed(i64),
    Float(u64),
    Text(String),
    Array(Vec<JsonValue>),
    Object(Vec<(String, JsonValue)>),
}

/// The script value of a decoded answer; the keys of objects go to snake case.
pub open spec fn json_py(j: JsonValue) -> PyText
    decreases j,
{
    match j {
        JsonValue::Null => PyText::Nothing,
        JsonValue::Bool(b) => PyText::Bool(b),
        JsonValue::Unsigned(n) => PyText::Int(n as int),
        JsonValue::Signed(n) => PyText::Int(n as int),
        JsonValue::Float(bits) => PyText::Float(bits),
        JsonValue::Text(s) => PyText::Text(s@),
        JsonValue::Array(v) => PyText::List(json_list(v, v@.len())),
        JsonValue::Object(v) => PyText::Dict(json_dict(v, v@.len())),
    }
}

pub open spec fn json_list(v: Vec<JsonValue>, n: nat) -> Seq<PyText>
    decreases v, n,
{
    if n == 0 || n > v@.len() {
        Seq::empty()
    } else {
        json_list(v, (n - 1) as nat).push(json_py(v[n - 1]))
    }
}

/// The first `n` entries of an object as a dict; where two names go to one key
/// the later one wins.
pub open spec fn json_dict(v: Vec<(String, JsonValue)>, n: nat) -> Seq<(Seq<char>, PyText)>
    decreases v, n,
{
    if n == 0 || n > v@.len() {
        Seq::empty()
    } else {
        assigned(json_dict(v, (n - 1) as nat), snake(v[n - 1].0@), json_py(v[n - 1].1))
    }
}

/// The script value of a decoded answer.
pub fn json_to_py(value: &JsonValue) -> (r: PyValue)
    ensures
        r@ == json_py(*value),
    decreases value,
{
    match value {
        JsonValue::Null => PyValue::Nothing,
        JsonValue::Bool(b) => PyValue::Bool(*b),
        JsonValue::Unsigned(n) => PyValue::Int(*n as i128),
        JsonValue::Signed(n) => PyValue::Int(*n as i128),
        JsonValue::Float(bits) => PyValue::Float(*bits),
        JsonValue::Text(s) => PyValue::Text(s.clone()),
        JsonValue::Array(items) => {
            let mut out: Vec<PyValue> = Vec::new();
            let mut i: usize = 0;
            assert(values_text(out@) =~= Seq::<PyText>::empty());
            while i < items.len()
                invariant
                    i <= items@.len(),
                    decreases_to!(value => items),
                    values_text(out@) == json_list(*items, i as nat),
                decreases items@.len() - i,
            {
                let ghost before = out@;
                let item = json_to_py(&items[i]);
                out.push(item);
                assert(values_text(out@) =~= values_text(before).push(item@));
                i += 1;
            }
            PyValue::list(out)
        },
        JsonValue::Object(entries) => PyValue::dict(object_entries(entries)),
    }
}

fn object_entries(entries: &Vec<(String, JsonValue)>) -> (r: Vec<(String, PyValue)>)
    ensures
        entries_text(r@) == json_dict(*entries, entries@.len()),
    decreases entries,
{
    let mut out: Vec<(String, PyValue)> = Vec::new();
    let mut i: usize = 0;
    assert(entries_text(out@) =~= Seq::<(Seq<char>, PyText)>::empty());
    while i < entries.len()
        invariant
            i <= entries@.len(),
            entries_text(out@) == json_dict(*entries, i as nat),
        decreases entries@.len() - i,
    {
        let key = avp_name_to_snake(&entries[i].0);
        let item = json_to_py(&entries[i].1);
        out = assign(out, key, item);
        i += 1;
    }
    out
}

/// The AVPs of an answer as a dict; an answer that is no object gives none.
pub fn decode_avps_to_pydict(value: &JsonValue) -> (r: PyValue)
    ensures
        r@ == match *value {
            JsonValue::Object(_) => json_py(*value),
            _ => PyText::Dict(Seq::empty()),
        },
{
    match value {
        JsonValue::Object(entries) => PyValue::dict(object_entries(entries)),
        _ => {
            let none: Vec<(String, PyValue)> = Vec::new();
            assert(entries_text(none@) =~= Seq::<(Seq<char>, PyText)>::empty());
            PyValue::dict(none)
        },
    }
}

} // verus!
