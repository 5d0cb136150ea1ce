//! The requests that scripts serve: reading and building AVPs, answering, and
//! relaying to a backend.

use super::codec::{
    avp_flags, avps_text, find_avp, grouped_avp, is_error_flags, is_proxiable_flags,
    is_request_flags, lemma_grouped, message_wire, raw_avp, set_avp_is_found, text_avp, u32_of,
    with_avp, without_avp, Avp, AvpData, AvpText, DataText, DiameterMsg, MsgText, FLAG_ERROR,
    FLAG_PROXIABLE,
};
use super::decode::message_of;
use super::dictionary::{command_title, app_name, def_by_code, def_by_name, AvpType, DictText, Dictionary};
use crate::bytes::{
    be_bytes, be_round_trip, be_value, from_be, from_twos32, lemma_be_value_bound, lemma_pow256, signed32, to_be, to_twos32, twos32,
};
use crate::error::{type_error, value_error, ErrorText, ScriptError};
use crate::pyvalue::{
    as_bytes, as_int, as_text, as_u32, lemma_list_text, values_text, PyText, PyValue,
};
use crate::text::{
    contains_text, decimal, decimal_text, has_text, opt_text, read_utf8, text_from_utf8_lossy, texts,
};
use vstd::prelude::*;
use vstd::string::*;
use vstd::utf8::{decode_utf8_encode_utf8, encode_utf8, encode_utf8_valid_utf8, valid_utf8};

verus! {

pub const AVP_USER_NAME: u32 = 1;

pub const AVP_SESSION_ID: u32 = 263;

pub const AVP_ORIGIN_HOST: u32 = 264;

pub const AVP_RESULT_CODE: u32 = 268;

pub const AVP_ERROR_MESSAGE: u32 = 281;

pub const AVP_ROUTE_RECORD: u32 = 282;

pub const AVP_DESTINATION_REALM: u32 = 283;

pub const AVP_DESTINATION_HOST: u32 = 293;

pub const AVP_ORIGIN_REALM: u32 = 296;

pub const DIAMETER_UNABLE_TO_DELIVER: u32 = 3002;

pub const DIAMETER_TOO_BUSY: u32 = 3004;

pub const DIAMETER_LOOP_DETECTED: u32 = 3005;

/// The type of an AVP, where the dictionary knows it.
pub open spec fn avp_type_of(dict: DictText, code: u32, vendor: u32) -> Option<AvpType> {
    match def_by_code(dict.avps, code, vendor) {
        Some(def) => Some(def.data_type),
        None => None,
    }
}

/// The script value of a leaf: text, a number or bytes, by its type.
pub open spec fn leaf_py(kind: Option<AvpType>, b: Seq<u8>) -> PyText {
    match kind {
        Some(AvpType::UTF8String) | Some(AvpType::DiameterIdentity) => PyText::Text(read_utf8(b)),
        Some(AvpType::Unsigned32) | Some(AvpType::Enumerated) => PyText::Int(
            if b.len() >= 4 {
                be_value(b.take(4)) as int
            } else {
                0
            },
        ),
        Some(AvpType::Integer32) => PyText::Int(
            if b.len() >= 4 {
                signed32(be_value(b.take(4)))
            } else {
                0
            },
        ),
        Some(AvpType::Unsigned64) => PyText::Int(
            if b.len() >= 8 {
                be_value(b.take(8)) as int
            } else {
                0
            },
        ),
        _ => PyText::Bytes(b),
    }
}

/// The script value of an AVP. A group is a list of `(code, value, vendor)`.
pub open spec fn avp_py(dict: DictText, code: u32, vendor: u32, a: AvpText) -> PyText
    decreases a,
{
    match a.value {
        DataText::Raw(b) => leaf_py(avp_type_of(dict, code, vendor), b),
        DataText::Grouped(children) => PyText::List(group_py(dict, children, children.len())),
    }
}

pub open spec fn group_py(dict: DictText, children: Seq<AvpText>, n: nat) -> Seq<PyText>
    decreases children, n,
{
    if n == 0 || n > children.len() {
        Seq::empty()
    } else {
        let child = children[n - 1];
        group_py(dict, children, (n - 1) as nat).push(
            PyText::Tuple(
                seq![
                    PyText::Int(child.code as int),
                    avp_py(dict, child.code, child.vendor, child),
                    PyText::Int(child.vendor as int),
                ],
            ),
        )
    }
}

fn avp_type(dict: &Dictionary, code: u32, vendor: u32) -> (r: Option<AvpType>)
    ensures
        r == avp_type_of(dict@, code, vendor),
{
    match dict.lookup_avp(code, vendor) {
        Some(def) => Some(def.data_type),
        None => None,
    }
}

fn leaf_to_py(kind: Option<AvpType>, b: &Vec<u8>) -> (r: PyValue)
    ensures
        r@ == leaf_py(kind, b@),
{
    match kind {
        Some(AvpType::UTF8String) | Some(AvpType::DiameterIdentity) => PyValue::Text(
            text_from_utf8_lossy(b.as_slice()),
        ),
        Some(AvpType::Unsigned32) | Some(AvpType::Enumerated) => {
            let n: u64 = if b.len() >= 4 {
                from_be(b.as_slice(), 4)
            } else {
                0
            };
            PyValue::Int(n as i128)
        },
        Some(AvpType::Integer32) => {
            let n: i32 = if b.len() >= 4 {
                proof {
                    lemma_be_value_bound(b@.take(4));
                    lemma_pow256();
                }
                from_twos32(from_be(b.as_slice(), 4))
            } else {
                0
            };
            PyValue::Int(n as i128)
        },
        Some(AvpType::Unsigned64) => {
            let n: u64 = if b.len() >= 8 {
                from_be(b.as_slice(), 8)
            } else {
                0
            };
            PyValue::Int(n as i128)
        },
        _ => {
            let mut out: Vec<u8> = Vec::new();
            out.extend_from_slice(b.as_slice());
            assert(out@ =~= b@);
            PyValue::Bytes(out)
        },
    }
}

/// The script value of an AVP, by its dictionary type.
pub fn avp_to_py(dict: &Dictionary, code: u32, vendor: u32, avp: &Avp) -> (r: PyValue)
    ensures
        r@ == avp_py(dict@, code, vendor, avp@),
    decreases avp,
{
    match &avp.value {
        AvpData::Raw(b) => leaf_to_py(avp_type(dict, code, vendor), b),
        AvpData::Grouped(children) => {
            proof {
                lemma_grouped(*children);
            }
            let ghost all = avps_text(children@);
            let mut out: Vec<PyValue> = Vec::new();
            let mut i: usize = 0;
            assert(values_text(out@) =~= Seq::<PyText>::empty());
            while i < children.len()
                invariant
                    i <= children@.len(),
                    decreases_to!(avp => children),
                    all == avps_text(children@),
                    values_text(out@) == group_py(dict@, all, i as nat),
                decreases children@.len() - i,
            {
                let child = &children[i];
                assert(all[i as int] == child@);
                let value = avp_to_py(dict, child.code, child.vendor, child);
                let triple: Vec<PyValue> = vec![
                    PyValue::Int(child.code as i128),
                    value,
                    PyValue::Int(child.vendor as i128),
                ];
                let ghost want = seq![
                    PyText::Int(child.code as int),
                    value@,
                    PyText::Int(child.vendor as int),
                ];
                assert(values_text(triple@) =~= want);
                let ghost before = out@;
                let item = PyValue::tuple(triple);
                out.push(item);
                assert(values_text(out@) =~= values_text(before).push(item@));
                i += 1;
            }
            PyValue::list(out)
        },
    }
}

/// The bytes of a leaf from a script value, by its type.
pub open spec fn leaf_bytes(kind: Option<AvpType>, p: PyText) -> Result<Seq<u8>, ErrorText> {
    match kind {
        Some(AvpType::UTF8String) | Some(AvpType::DiameterIdentity) => match as_text(p) {
            Ok(s) => Ok(encode_utf8(s)),
            Err(e) => Err(e),
        },
        Some(AvpType::Unsigned32) | Some(AvpType::Enumerated) => match as_u32(p) {
            Ok(n) => Ok(be_bytes(n as nat, 4)),
            Err(e) => Err(e),
        },
        Some(AvpType::Integer32) => match as_int(p, i32::MIN as int, i32::MAX as int) {
            Ok(n) => Ok(be_bytes(twos32(n), 4)),
            Err(e) => Err(e),
        },
        Some(AvpType::Unsigned64) => match as_int(p, 0, u64::MAX as int) {
            Ok(n) => Ok(be_bytes(n as nat, 8)),
            Err(e) => Err(e),
        },
        _ => match as_bytes(p) {
            Ok(b) => Ok(b),
            Err(_) => match as_text(p) {
                Ok(s) => Ok(encode_utf8(s)),
                Err(e) => Err(e),
            },
        },
    }
}

/// The bytes of a leaf from a script value, by its dictionary type.
pub fn py_to_avp_raw(dict: &Dictionary, code: u32, vendor: u32, value: &PyValue) -> (r: Result<
    Vec<u8>,
    ScriptError,
>)
    ensures
        match r {
            Ok(b) => leaf_bytes(avp_type_of(dict@, code, vendor), value@) == Ok::<
                Seq<u8>,
                ErrorText,
            >(b@),
            Err(e) => leaf_bytes(avp_type_of(dict@, code, vendor), value@) == Err::<
                Seq<u8>,
                ErrorText,
            >(e@),
        },
{
    match avp_type(dict, code, vendor) {
        Some(AvpType::UTF8String) | Some(AvpType::DiameterIdentity) => match value.as_text() {
            Ok(s) => Ok(s.as_str().as_bytes_vec()),
            Err(e) => Err(e),
        },
        Some(AvpType::Unsigned32) | Some(AvpType::Enumerated) => match value.as_u32() {
            Ok(n) => Ok(to_be(n as u64, 4)),
            Err(e) => Err(e),
        },
        Some(AvpType::Integer32) => match value.as_int(i32::MIN as i128, i32::MAX as i128) {
            Ok(n) => Ok(to_be(to_twos32(n as i32), 4)),
            Err(e) => Err(e),
        },
        Some(AvpType::Unsigned64) => match value.as_int(0, u64::MAX as i128) {
            Ok(n) => Ok(to_be(n as u64, 8)),
            Err(e) => Err(e),
        },
        _ => match value.as_bytes() {
            Ok(b) => Ok(b),
            Err(_) => match value.as_text() {
                Ok(s) => Ok(s.as_str().as_bytes_vec()),
                Err(e) => Err(e),
            },
        },
    }
}

/// The code and the vendor that a value names: a code as a number, or a name
/// that the dictionary knows.
pub open spec fn code_of(dict: DictText, p: PyText) -> Result<(u32, u32), ErrorText> {
    match as_u32(p) {
        Ok(code) => Ok((code as u32, 0)),
        Err(_) => match p {
            PyText::Text(name) => match def_by_name(dict.avps, name) {
                Some(def) => Ok((def.code, def.vendor_id)),
                None => Err(value_error("unknown AVP name: "@ + name)),
            },
            _ => Err(type_error("AVP must be an int code or a str name"@)),
        },
    }
}

/// Resolves a code or a name of an AVP.
pub fn resolve_code(dict: &Dictionary, arg: &PyValue) -> (r: Result<(u32, u32), ScriptError>)
    ensures
        match r {
            Ok(c) => code_of(dict@, arg@) == Ok::<(u32, u32), ErrorText>(c),
            Err(e) => code_of(dict@, arg@) == Err::<(u32, u32), ErrorText>(e@),
        },
{
    match arg.as_u32() {
        Ok(code) => {
            return Ok((code, 0));
        },
        Err(_) => {},
    }
    match arg {
        PyValue::Text(name) => match dict.lookup_by_name(name) {
            Some(def) => Ok((def.code, def.vendor_id)),
            None => Err(ScriptError::value("unknown AVP name: ".to_owned().concat(name))),
        },
        _ => Err(ScriptError::type_("AVP must be an int code or a str name".to_owned())),
    }
}

pub open spec fn u32_or_zero(p: PyText) -> u32 {
    match as_u32(p) {
        Ok(n) => n as u32,
        Err(_) => 0,
    }
}

/// An AVP from a script value. A list makes a group of its child
/// specifications; anything else makes a leaf.
pub open spec fn built_avp(dict: DictText, code: u32, vendor: u32, p: PyText) -> Result<
    AvpText,
    ErrorText,
>
    decreases p,
{
    match p {
        PyText::List(items) => match built_children(dict, items, items.len()) {
            Ok(children) => Ok(grouped_avp(code, vendor, children)),
            Err(e) => Err(e),
        },
        _ => match leaf_bytes(avp_type_of(dict, code, vendor), p) {
            Ok(b) => Ok(raw_avp(code, vendor, b)),
            Err(e) => Err(e),
        },
    }
}

/// The AVPs of the first `n` child specifications, or the first error.
pub open spec fn built_children(dict: DictText, items: Seq<PyText>, n: nat) -> Result<
    Seq<AvpText>,
    ErrorText,
>
    decreases items, n,
{
    if n == 0 || n > items.len() {
        Ok(Seq::empty())
    } else {
        match built_children(dict, items, (n - 1) as nat) {
            Err(e) => Err(e),
            Ok(before) => match built_child(dict, items[n - 1]) {
                Err(e) => Err(e),
                Ok(child) => Ok(before.push(child)),
            },
        }
    }
}

/// The AVP of a child specification: `(code or name, value)`, and optionally a
/// vendor, which wins over that of the name unless it is zero.
pub open spec fn built_child(dict: DictText, spec_value: PyText) -> Result<AvpText, ErrorText>
    decreases spec_value,
{
    match spec_value {
        PyText::Tuple(t) => if t.len() < 2 {
            Err(type_error("grouped AVP child tuple needs at least (code, value)"@))
        } else {
            match code_of(dict, t[0]) {
                Err(e) => Err(e),
                Ok((code, name_vendor)) => {
                    let explicit = if t.len() >= 3 {
                        u32_or_zero(t[2])
                    } else {
                        0
                    };
                    let vendor = if explicit != 0 {
                        explicit
                    } else {
                        name_vendor
                    };
                    built_avp(dict, code, vendor, t[1])
                },
            }
        },
        _ => Err(
            type_error(
                "grouped AVP children must be (code, value) or (code, value, vendor) tuples"@,
            ),
        ),
    }
}

proof fn lemma_children_error(dict: DictText, items: Seq<PyText>, n: nat, m: nat)
    requires
        n <= m <= items.len(),
        built_children(dict, items, n) is Err,
    ensures
        built_children(dict, items, m) == built_children(dict, items, n),
    decreases m,
{
    if n < m {
        lemma_children_error(dict, items, n, (m - 1) as nat);
    }
}

/// Builds an AVP from a script value.
pub fn build_avp(dict: &Dictionary, code: u32, vendor: u32, value: &PyValue) -> (r: Result<
    Avp,
    ScriptError,
>)
    ensures
        match r {
            Ok(a) => built_avp(dict@, code, vendor, value@) == Ok::<AvpText, ErrorText>(a@)
                && a@.code == code && a@.vendor == vendor,
            Err(e) => built_avp(dict@, code, vendor, value@) == Err::<AvpText, ErrorText>(e@),
        },
    decreases value,
{
    match value {
        PyValue::List(items) => {
            proof {
                lemma_list_text(*items);
            }
            let ghost all = values_text(items@);
            let mut children: Vec<Avp> = Vec::new();
            let mut i: usize = 0;
            assert(avps_text(children@) =~= Seq::<AvpText>::empty());
            while i < items.len()
                invariant
                    i <= items@.len(),
                    decreases_to!(value => items),
                    all == values_text(items@),
                    value@ == PyText::List(all),
                    built_children(dict@, all, i as nat) == Ok::<Seq<AvpText>, ErrorText>(
                        avps_text(children@),
                    ),
                decreases items@.len() - i,
            {
                assert(all[i as int] == items@[i as int]@);
                match build_child_spec(dict, &items[i]) {
                    Ok(child) => {
                        let ghost before = children@;
                        children.push(child);
                        assert(avps_text(children@) =~= avps_text(before).push(child@));
                    },
                    Err(e) => {
                        proof {
                            lemma_children_error(dict@, all, (i + 1) as nat, all.len());
                        }
                        return Err(e);
                    },
                }
                i += 1;
            }
            Ok(Avp::grouped(code, vendor, children))
        },
        _ => match py_to_avp_raw(dict, code, vendor, value) {
            Ok(raw) => Ok(Avp::raw(code, vendor, raw)),
            Err(e) => Err(e),
        },
    }
}

/// Builds the AVP of a child specification.
pub fn build_child_spec(dict: &Dictionary, spec_value: &PyValue) -> (r: Result<Avp, ScriptError>)
    ensures
        match r {
            Ok(a) => built_child(dict@, spec_value@) == Ok::<AvpText, ErrorText>(a@),
            Err(e) => built_child(dict@, spec_value@) == Err::<AvpText, ErrorText>(e@),
        },
    decreases spec_value,
{
    let tuple = match spec_value {
        PyValue::Tuple(t) => t,
        _ => {
            return Err(
                ScriptError::type_(
                    "grouped AVP children must be (code, value) or (code, value, vendor) tuples".to_owned(),
                ),
            );
        },
    };
    proof {
        lemma_list_text(*tuple);
    }
    let ghost all = values_text(tuple@);
    if tuple.len() < 2 {
        return Err(
            ScriptError::type_("grouped AVP child tuple needs at least (code, value)".to_owned()),
        );
    }
    assert(all[0] == tuple@[0]@ && all[1] == tuple@[1]@);
    let (code, name_vendor) = match resolve_code(dict, &tuple[0]) {
        Ok(found) => found,
        Err(e) => {
            return Err(e);
        },
    };
    let explicit: u32 = if tuple.len() >= 3 {
        assert(all[2] == tuple@[2]@);
        match tuple[2].as_u32() {
            Ok(n) => n,
            Err(_) => 0,
        }
    } else {
        0
    };
    let vendor: u32 = if explicit != 0 {
        explicit
    } else {
        name_vendor
    };
    build_avp(dict, code, vendor, &tuple[1])
}

/// A leaf whose bytes are the ones that its script value is written as.
pub open spec fn canonical_leaf(kind: Option<AvpType>, b: Seq<u8>) -> bool {
    match kind {
        Some(AvpType::UTF8String) | Some(AvpType::DiameterIdentity) => valid_utf8(b),
        Some(AvpType::Unsigned32) | Some(AvpType::Enumerated) | Some(AvpType::Integer32) => b.len()
            == 4,
        Some(AvpType::Unsigned64) => b.len() == 8,
        _ => true,
    }
}

/// An AVP whose leaves are all written in full.
pub open spec fn canonical(dict: DictText, a: AvpText) -> bool
    decreases a,
{
    match a.value {
        DataText::Raw(b) => canonical_leaf(avp_type_of(dict, a.code, a.vendor), b),
        DataText::Grouped(children) => all_canonical(dict, children, children.len()),
    }
}

pub open spec fn all_canonical(dict: DictText, children: Seq<AvpText>, n: nat) -> bool
    decreases children, n,
{
    if n == 0 || n > children.len() {
        true
    } else {
        all_canonical(dict, children, (n - 1) as nat) && canonical(dict, children[n - 1])
    }
}

proof fn lemma_be_inverse(b: Seq<u8>)
    ensures
        be_bytes(be_value(b), b.len()) == b,
    decreases b.len(),
{
    if b.len() > 0 {
        let init = b.drop_last();
        lemma_be_inverse(init);
        let n = be_value(b);
        assert(n / 256 == be_value(init));
        assert(n % 256 == b.last());
        assert(be_bytes(n, b.len()) =~= init.push(b.last()));
        assert(init.push(b.last()) =~= b);
    } else {
        assert(b =~= Seq::<u8>::empty());
    }
}

proof fn lemma_leaf_round_trip(kind: Option<AvpType>, b: Seq<u8>)
    requires
        canonical_leaf(kind, b),
    ensures
        leaf_bytes(kind, leaf_py(kind, b)) == Ok::<Seq<u8>, ErrorText>(b),
        !(leaf_py(kind, b) is List),
{
    lemma_pow256();
    match kind {
        Some(AvpType::UTF8String) | Some(AvpType::DiameterIdentity) => {
            decode_utf8_encode_utf8(b);
        },
        Some(AvpType::Unsigned32) | Some(AvpType::Enumerated) | Some(AvpType::Integer32) => {
            assert(b.take(4) =~= b);
            lemma_be_inverse(b);
            lemma_be_value_bound(b);
        },
        Some(AvpType::Unsigned64) => {
            assert(b.take(8) =~= b);
            lemma_be_inverse(b);
            lemma_be_value_bound(b);
        },
        _ => {},
    }
}

/// An AVP with the usual flags, through any depth of groups.
pub open spec fn usual(a: AvpText) -> AvpText
    decreases a,
{
    AvpText {
        flags: avp_flags(a.vendor),
        value: match a.value {
            DataText::Raw(b) => DataText::Raw(b),
            DataText::Grouped(children) => DataText::Grouped(usual_list(children, children.len())),
        },
        ..a
    }
}

/// The first `n` AVPs of a list with the usual flags.
pub open spec fn usual_list(children: Seq<AvpText>, n: nat) -> Seq<AvpText>
    decreases children, n,
{
    if n == 0 || n > children.len() {
        Seq::empty()
    } else {
        usual_list(children, (n - 1) as nat).push(usual(children[n - 1]))
    }
}

/// What is read out of a message can be set back in: building an AVP from its
/// own script value gives the same code, vendor and data through any depth of
/// groups, with the usual flags.
pub proof fn avp_reads_back(dict: DictText, a: AvpText)
    requires
        canonical(dict, a),
    ensures
        built_avp(dict, a.code, a.vendor, avp_py(dict, a.code, a.vendor, a)) == Ok::<
            AvpText,
            ErrorText,
        >(usual(a)),
    decreases a, 0nat,
{
    match a.value {
        DataText::Raw(b) => {
            lemma_leaf_round_trip(avp_type_of(dict, a.code, a.vendor), b);
        },
        DataText::Grouped(children) => {
            lemma_group_reads_back(dict, children, children.len());
            lemma_group_len(dict, children, children.len());
        },
    }
}

proof fn lemma_group_len(dict: DictText, children: Seq<AvpText>, n: nat)
    requires
        n <= children.len(),
    ensures
        group_py(dict, children, n).len() == n,
        forall|i: int|
            0 <= i < n ==> #[trigger] group_py(dict, children, n)[i] == group_py(
                dict,
                children,
                (i + 1) as nat,
            )[i],
    decreases n,
{
    if n > 0 {
        lemma_group_len(dict, children, (n - 1) as nat);
        let all = group_py(dict, children, n);
        assert forall|i: int| 0 <= i < n implies #[trigger] all[i] == group_py(
            dict,
            children,
            (i + 1) as nat,
        )[i] by {
            if i < n - 1 {
                assert(all[i] == group_py(dict, children, (n - 1) as nat)[i]);
            }
        }
    }
}

proof fn lemma_children_prefix(dict: DictText, a: Seq<PyText>, b: Seq<PyText>, n: nat)
    requires
        n <= a.len(),
        n <= b.len(),
        forall|i: int| 0 <= i < n ==> a[i] == b[i],
    ensures
        built_children(dict, a, n) == built_children(dict, b, n),
    decreases n,
{
    if n > 0 {
        lemma_children_prefix(dict, a, b, (n - 1) as nat);
    }
}

proof fn lemma_group_reads_back(dict: DictText, children: Seq<AvpText>, n: nat)
    requires
        n <= children.len(),
        all_canonical(dict, children, n),
    ensures
        built_children(dict, group_py(dict, children, n), n) == Ok::<Seq<AvpText>, ErrorText>(
            usual_list(children, n),
        ),
    decreases children, n,
{
    lemma_group_len(dict, children, n);
    if n > 0 {
        let child = children[n - 1];
        lemma_group_reads_back(dict, children, (n - 1) as nat);
        avp_reads_back(dict, child);
        let all = group_py(dict, children, n);
        let before = group_py(dict, children, (n - 1) as nat);
        lemma_group_len(dict, children, (n - 1) as nat);
        assert forall|i: int| 0 <= i < n - 1 implies all[i] == before[i] by {
            assert(all[i] == before[i]);
        }
        lemma_children_prefix(dict, all, before, (n - 1) as nat);
        let t = all[n - 1];
        assert(t->Tuple_0.len() == 3);
        assert(t->Tuple_0[0] == PyText::Int(child.code as int));
        assert(t->Tuple_0[1] == avp_py(dict, child.code, child.vendor, child));
        assert(t->Tuple_0[2] == PyText::Int(child.vendor as int));
        assert(built_child(dict, t) == Ok::<AvpText, ErrorText>(usual(child)));
    }
}

/// The peer that sent a request.
pub struct PyInboundPeer {
    pub name: String,
    pub tenant: String,
    pub addr: String,
    pub transport: String,
}

/// A backend peer that a pool picked.
pub struct PyPeer {
    pub name: String,
    pub tenant: String,
    pub host: String,
    pub port: u16,
    pub open: bool,
}

impl PyPeer {
    /// The peer for a pick of a pool.
    pub fn from_named(tenant: &str, named: Option<(String, String, u16, bool)>) -> (r: Option<PyPeer>)
        ensures
            match named {
                None => r is None,
                Some(n) => r matches Some(p) && p.name == n.0 && p.tenant@ == tenant@ && p.host == n.1
                    && p.port == n.2 && p.open == n.3,
            },
    {
        match named {
            Some((name, host, port, open)) => Some(
                PyPeer { name, tenant: tenant.to_owned(), host, port, open },
            ),
            None => None,
        }
    }

    pub fn addr(&self) -> (r: String)
        ensures
            r@ == self.host@ + ":"@ + decimal(self.port as nat),
    {
        self.host.clone().concat(":").concat(&decimal_text(self.port as u64))
    }

    pub fn __bool__(&self) -> (r: bool)
        ensures
            r == self.open,
    {
        self.open
    }
}

/// A pool of backend peers: their names, and the label of their tenant.
pub struct PyPeerPool {
    names: Vec<String>,
    tenant: String,
}

/// A pool as mathematical data.
pub struct PoolText {
    pub names: Seq<Seq<char>>,
    pub tenant: Seq<char>,
}

impl View for PyPeerPool {
    type V = PoolText;

    closed spec fn view(&self) -> PoolText {
        PoolText { names: texts(self.names@), tenant: self.tenant@ }
    }
}

impl PyPeerPool {
    pub fn new(names: Vec<String>, tenant: String) -> (r: Self)
        ensures
            r@ == (PoolText { names: texts(names@), tenant: tenant@ }),
    {
        PyPeerPool { names, tenant }
    }

    /// The peer for a pick that the pool's balancer made: its name, its host
    /// and port, and whether it is open.
    pub fn picked(&self, named: Option<(String, String, u16, bool)>) -> (r: Option<PyPeer>)
        ensures
            match named {
                None => r is None,
                Some(n) => r matches Some(p) && p.name == n.0 && p.tenant@ == self@.tenant
                    && p.host == n.1 && p.port == n.2 && p.open == n.3,
            },
    {
        PyPeer::from_named(&self.tenant, named)
    }

    pub fn tenant(&self) -> (r: &str)
        ensures
            r@ == self@.tenant,
    {
        self.tenant.as_str()
    }

    /// How many peers are in the pool.
    pub fn len(&self) -> (r: usize)
        ensures
            r == self@.names.len(),
    {
        self.names.len()
    }
}

/// The header of an answer keeps whether the request was proxiable and says
/// whether it is an error: 3xxx and 5xxx are.
pub open spec fn answer_flags(request_flags: u8, result_code: u32) -> u8 {
    let proxiable: u8 = if is_proxiable_flags(request_flags) {
        FLAG_PROXIABLE
    } else {
        0
    };
    if is_error_code(result_code) {
        (proxiable + FLAG_ERROR) as u8
    } else {
        proxiable
    }
}

pub open spec fn is_error_code(code: u32) -> bool {
    code / 1000 == 3 || code / 1000 == 5
}

/// The AVPs of an answer: the session of the request, the result, the local
/// identity, and the message of an error.
pub open spec fn answer_avps(
    request: MsgText,
    host: Seq<char>,
    realm: Seq<char>,
    result_code: u32,
    error_message: Option<Seq<char>>,
) -> Seq<AvpText> {
    let session = match text_avp(request.avps, AVP_SESSION_ID) {
        Some(id) => seq![raw_avp(AVP_SESSION_ID, 0, encode_utf8(id))],
        None => Seq::empty(),
    };
    let error = match error_message {
        Some(message) => seq![raw_avp(AVP_ERROR_MESSAGE, 0, encode_utf8(message))],
        None => Seq::empty(),
    };
    session + seq![
        raw_avp(AVP_RESULT_CODE, 0, be_bytes(result_code as nat, 4)),
        raw_avp(AVP_ORIGIN_HOST, 0, encode_utf8(host)),
        raw_avp(AVP_ORIGIN_REALM, 0, encode_utf8(realm)),
    ] + error
}

/// The answer to a request.
pub open spec fn answer_to(
    request: MsgText,
    host: Seq<char>,
    realm: Seq<char>,
    result_code: u32,
    error_message: Option<Seq<char>>,
) -> MsgText {
    MsgText {
        flags: answer_flags(request.flags, result_code),
        command_code: request.command_code,
        application_id: request.application_id,
        hop_by_hop: request.hop_by_hop,
        end_to_end: request.end_to_end,
        avps: answer_avps(request, host, realm, result_code, error_message),
    }
}

/// Builds the answer to a request.
pub fn build_answer(
    request: &DiameterMsg,
    host: &str,
    realm: &str,
    result_code: u32,
    error_message: Option<&str>,
) -> (r: DiameterMsg)
    ensures
        r@ == answer_to(request@, host@, realm@, result_code, crate::text::opt_str(error_message)),
{
    let proxiable: u8 = if request.is_proxiable() {
        FLAG_PROXIABLE
    } else {
        0
    };
    let flags: u8 = if result_code / 1000 == 3 || result_code / 1000 == 5 {
        proxiable + FLAG_ERROR
    } else {
        proxiable
    };
    let mut avps: Vec<Avp> = Vec::new();
    match request.get_str(AVP_SESSION_ID) {
        Some(id) => {
            avps.push(Avp::utf8(AVP_SESSION_ID, 0, &id));
        },
        None => {},
    }
    avps.push(Avp::raw(AVP_RESULT_CODE, 0, to_be(result_code as u64, 4)));
    avps.push(Avp::utf8(AVP_ORIGIN_HOST, 0, host));
    avps.push(Avp::utf8(AVP_ORIGIN_REALM, 0, realm));
    match error_message {
        Some(message) => {
            avps.push(Avp::utf8(AVP_ERROR_MESSAGE, 0, message));
        },
        None => {},
    }
    let r = DiameterMsg {
        flags,
        command_code: request.command_code,
        application_id: request.application_id,
        hop_by_hop: request.hop_by_hop,
        end_to_end: request.end_to_end,
        avps,
    };
    assert(r@.avps =~= answer_avps(
        request@,
        host@,
        realm@,
        result_code,
        crate::text::opt_str(error_message),
    ));
    r
}

/// The answer that goes back upstream.
pub struct PyDiameterAnswer {
    msg: DiameterMsg,
}

impl View for PyDiameterAnswer {
    type V = MsgText;

    closed spec fn view(&self) -> MsgText {
        self.msg@
    }
}

/// The vendor of an assignment: the given one, else that of the name.
pub open spec fn chosen_vendor(given: u32, named: u32) -> u32 {
    if given != 0 {
        given
    } else {
        named
    }
}

/// The AVP of an assignment by code or name.
pub open spec fn assigned_avp(dict: DictText, target: PyText, value: PyText, vendor: u32) -> Result<
    AvpText,
    ErrorText,
> {
    match code_of(dict, target) {
        Err(e) => Err(e),
        Ok((code, name_vendor)) => built_avp(
            dict,
            code,
            chosen_vendor(vendor, name_vendor),
            value,
        ),
    }
}

fn build_assigned(dict: &Dictionary, target: &PyValue, value: &PyValue, vendor: u32) -> (r: Result<
    Avp,
    ScriptError,
>)
    ensures
        match r {
            Ok(a) => assigned_avp(dict@, target@, value@, vendor) == Ok::<AvpText, ErrorText>(a@),
            Err(e) => assigned_avp(dict@, target@, value@, vendor) == Err::<AvpText, ErrorText>(e@),
        },
{
    let (code, name_vendor) = match resolve_code(dict, target) {
        Ok(found) => found,
        Err(e) => {
            return Err(e);
        },
    };
    let chosen: u32 = if vendor != 0 {
        vendor
    } else {
        name_vendor
    };
    build_avp(dict, code, chosen, value)
}

fn read_avp(dict: &Dictionary, msg: &DiameterMsg, code: u32, vendor: u32) -> (r: Option<PyValue>)
    ensures
        match find_avp(msg@.avps, code, vendor) {
            Some(a) => r is Some && r->0@ == avp_py(dict@, code, vendor, a),
            None => r is None,
        },
{
    match msg.find(code, vendor) {
        Some(avp) => Some(avp_to_py(dict, code, vendor, avp)),
        None => None,
    }
}

/// A row of an AVP listing.
pub open spec fn avp_row(dict: DictText, a: AvpText) -> PyText {
    PyText::Tuple(
        seq![
            PyText::Int(a.code as int),
            PyText::Int(a.vendor as int),
            avp_py(dict, a.code, a.vendor, a),
        ],
    )
}

fn list_avps(dict: &Dictionary, msg: &DiameterMsg) -> (r: Vec<PyValue>)
    ensures
        values_text(r@) == Seq::new(msg@.avps.len(), |i: int| avp_row(dict@, msg@.avps[i])),
{
    let ghost all = msg@.avps;
    let ghost rows = Seq::new(all.len(), |i: int| avp_row(dict@, all[i]));
    let mut out: Vec<PyValue> = Vec::new();
    let mut i: usize = 0;
    while i < msg.avps.len()
        invariant
            i <= msg.avps@.len(),
            all == avps_text(msg.avps@),
            rows == Seq::new(all.len(), |k: int| avp_row(dict@, all[k])),
            values_text(out@) == rows.take(i as int),
        decreases msg.avps@.len() - i,
    {
        let avp = &msg.avps[i];
        assert(all[i as int] == avp@);
        let triple: Vec<PyValue> = vec![
            PyValue::Int(avp.code as i128),
            PyValue::Int(avp.vendor as i128),
            avp_to_py(dict, avp.code, avp.vendor, avp),
        ];
        let ghost want = seq![
            PyText::Int(avp@.code as int),
            PyText::Int(avp@.vendor as int),
            avp_py(dict@, avp@.code, avp@.vendor, avp@),
        ];
        assert(values_text(triple@) =~= want);
        let ghost before = out@;
        let item = PyValue::tuple(triple);
        out.push(item);
        assert(values_text(out@) =~= values_text(before).push(item@));
        assert(values_text(out@) =~= rows.take(i + 1));
        i += 1;
    }
    assert(rows.take(rows.len() as int) =~= rows);
    out
}

/// The effect of an assignment on a message.
pub open spec fn after_set_avp(
    dict: DictText,
    msg: MsgText,
    target: PyText,
    value: PyText,
    vendor: u32,
) -> Result<MsgText, ErrorText> {
    match assigned_avp(dict, target, value, vendor) {
        Ok(avp) => Ok(MsgText { avps: with_avp(msg.avps, avp), ..msg }),
        Err(e) => Err(e),
    }
}

impl PyDiameterAnswer {
    pub fn from_msg(msg: DiameterMsg) -> (r: Self)
        ensures
            r@ == msg@,
    {
        PyDiameterAnswer { msg }
    }

    pub fn message(&self) -> (r: &DiameterMsg)
        ensures
            r@ == self@,
    {
        &self.msg
    }

    pub fn to_wire(&self) -> (r: Vec<u8>)
        ensures
            r@ == message_wire(self@),
    {
        self.msg.to_wire()
    }

    pub fn result_code(&self) -> (r: Option<u32>)
        ensures
            r == match find_avp(self@.avps, AVP_RESULT_CODE, 0) {
                Some(a) => u32_of(a),
                None => None,
            },
    {
        match self.msg.find(AVP_RESULT_CODE, 0) {
            Some(avp) => avp.as_u32(),
            None => None,
        }
    }

    pub fn command_code(&self) -> (r: u32)
        ensures
            r == self@.command_code,
    {
        self.msg.command_code
    }

    pub fn is_error(&self) -> (r: bool)
        ensures
            r == is_error_flags(self@.flags),
    {
        self.msg.is_error()
    }

    pub fn get_avp(&self, dict: &Dictionary, code: u32, vendor: u32) -> (r: Option<PyValue>)
        ensures
            match find_avp(self@.avps, code, vendor) {
                Some(a) => r is Some && r->0@ == avp_py(dict@, code, vendor, a),
                None => r is None,
            },
    {
        read_avp(dict, &self.msg, code, vendor)
    }

    pub fn iter_avps(&self, dict: &Dictionary) -> (r: Vec<PyValue>)
        ensures
            values_text(r@) == Seq::new(self@.avps.len(), |i: int| avp_row(dict@, self@.avps[i])),
    {
        list_avps(dict, &self.msg)
    }

    /// Replaces the AVPs of a code by one; nothing changes where that fails.
    pub fn set_avp(&mut self, dict: &Dictionary, code_or_name: &PyValue, value: &PyValue, vendor: u32) -> (r:
        Result<(), ScriptError>)
        ensures
            match r {
                Ok(_) => after_set_avp(dict@, old(self)@, code_or_name@, value@, vendor) == Ok::<
                    MsgText,
                    ErrorText,
                >(final(self)@),
                Err(e) => after_set_avp(dict@, old(self)@, code_or_name@, value@, vendor) == Err::<
                    MsgText,
                    ErrorText,
                >(e@) && final(self)@ == old(self)@,
            },
    {
        match build_assigned(dict, code_or_name, value, vendor) {
            Ok(avp) => {
                self.msg.set(avp);
                Ok(())
            },
            Err(e) => Err(e),
        }
    }

    /// Removes the AVPs of a code and says how many there were.
    pub fn remove_avp(&mut self, code: u32, vendor: u32) -> (r: usize)
        ensures
            final(self)@ == (MsgText {
                avps: without_avp(old(self)@.avps, code, vendor),
                ..old(self)@
            }),
            r == old(self)@.avps.len() - without_avp(old(self)@.avps, code, vendor).len(),
    {
        self.msg.remove(code, vendor)
    }
}

/// A request that a script serves.
pub struct PyDiameterRequest {
    msg: DiameterMsg,
    inbound_hbh: u32,
    inbound_e2e: u32,
    peer: PyInboundPeer,
    local_origin_host: String,
    local_origin_realm: String,
}

/// What a request object holds.
pub struct ServedText {
    pub msg: MsgText,
    pub inbound_hbh: u32,
    pub inbound_e2e: u32,
    pub host: Seq<char>,
    pub realm: Seq<char>,
}

impl View for PyDiameterRequest {
    type V = ServedText;

    closed spec fn view(&self) -> ServedText {
        ServedText {
            msg: self.msg@,
            inbound_hbh: self.inbound_hbh,
            inbound_e2e: self.inbound_e2e,
            host: self.local_origin_host@,
            realm: self.local_origin_realm@,
        }
    }
}

/// The message with another origin.
pub open spec fn with_origin(msg: MsgText, host: Seq<char>, realm: Seq<char>) -> MsgText {
    MsgText {
        avps: with_avp(
            with_avp(msg.avps, raw_avp(AVP_ORIGIN_HOST, 0, encode_utf8(host))),
            raw_avp(AVP_ORIGIN_REALM, 0, encode_utf8(realm)),
        ),
        ..msg
    }
}

/// Whether the message already passed a host.
pub open spec fn passed(avps: Seq<AvpText>, host: Seq<char>) -> bool {
    exists|i: int|
        0 <= i < avps.len() && (#[trigger] avps[i]) == (AvpText {
            flags: avps[i].flags,
            ..raw_avp(AVP_ROUTE_RECORD, 0, encode_utf8(host))
        })
}

/// The message with a record of the host it passed.
pub open spec fn recorded(msg: MsgText, host: Seq<char>) -> MsgText {
    MsgText { avps: msg.avps.push(raw_avp(AVP_ROUTE_RECORD, 0, encode_utf8(host))), ..msg }
}

/// The message as it would go to a backend, before its route record.
pub open spec fn hidden(served: ServedText, identity: Option<(Seq<char>, Seq<char>)>) -> MsgText {
    match identity {
        Some((host, realm)) => with_origin(served.msg, host, realm),
        None => served.msg,
    }
}

fn has_passed(msg: &DiameterMsg, host: &str) -> (r: bool)
    ensures
        r == passed(msg@.avps, host@),
{
    let ghost all = msg@.avps;
    let bytes = host.as_bytes_vec();
    let mut i: usize = 0;
    while i < msg.avps.len()
        invariant
            i <= msg.avps@.len(),
            all == avps_text(msg.avps@),
            bytes@ == encode_utf8(host@),
            forall|k: int|
                0 <= k < i ==> (#[trigger] all[k]) != (AvpText {
                    flags: all[k].flags,
                    ..raw_avp(AVP_ROUTE_RECORD, 0, encode_utf8(host@))
                }),
        decreases msg.avps@.len() - i,
    {
        let avp = &msg.avps[i];
        assert(all[i as int] == avp@);
        if avp.code == AVP_ROUTE_RECORD && avp.vendor == 0 {
            match &avp.value {
                AvpData::Raw(b) => {
                    if same_bytes(b, &bytes) {
                        assert(all[i as int] == (AvpText {
                            flags: all[i as int].flags,
                            ..raw_avp(AVP_ROUTE_RECORD, 0, encode_utf8(host@))
                        }));
                        return true;
                    }
                },
                AvpData::Grouped(_) => {},
            }
        }
        i += 1;
    }
    false
}

fn same_bytes(a: &Vec<u8>, b: &Vec<u8>) -> (r: bool)
    ensures
        r == (a@ == b@),
{
    if a.len() != b.len() {
        return false;
    }
    let mut i: usize = 0;
    while i < a.len()
        invariant
            i <= a@.len(),
            a@.len() == b@.len(),
            forall|k: int| 0 <= k < i ==> a@[k] == b@[k],
        decreases a@.len() - i,
    {
        if a[i] != b[i] {
            return false;
        }
        i += 1;
    }
    assert(a@ =~= b@);
    true
}

/// The first half of a relay: an answer right away, or a message to send.
pub enum ForwardStep {
    Answer(PyDiameterAnswer),
    Send(DiameterMsg),
}

/// What came back from a backend.
pub enum BackendReply {
    /// A well-formed answer.
    Answered(DiameterMsg),
    /// Bytes that are no answer.
    Malformed,
    /// Nothing, for a reason.
    Failed(String),
}

impl BackendReply {
    /// What the bytes that a backend sent mean, or the reason why there are
    /// none.
    pub fn of_wire(dict: &Dictionary, received: Result<Vec<u8>, String>) -> (r: Self)
        ensures
            match received {
                Ok(wire) => match message_of(dict@, wire@) {
                    Some(text) => r matches BackendReply::Answered(answer) && answer@ == text,
                    None => r is Malformed,
                },
                Err(reason) => r == BackendReply::Failed(reason),
            },
    {
        match received {
            Ok(wire) => match DiameterMsg::from_wire(dict, wire.as_slice()) {
                Some(answer) => BackendReply::Answered(answer),
                None => BackendReply::Malformed,
            },
            Err(reason) => BackendReply::Failed(reason),
        }
    }
}

/// The message of an answer about a loop.
pub open spec fn loop_message(host: Seq<char>) -> Seq<char> {
    "loop detected: "@ + host + " already in Route-Record"@
}

/// A message under the identifiers that a request came in with.
pub open spec fn under_inbound(served: ServedText, m: MsgText) -> MsgText {
    MsgText { hop_by_hop: served.inbound_hbh, end_to_end: served.inbound_e2e, ..m }
}

/// The answer to a relayed request: the backend's own, else an error. Either
/// way it goes back under the identifiers that the request came in with.
pub open spec fn relayed(served: ServedText, sent: MsgText, reply: BackendReply) -> MsgText {
    under_inbound(
        served,
        match reply {
            BackendReply::Answered(answer) => answer@,
            BackendReply::Malformed => answer_to(
                sent,
                served.host,
                served.realm,
                DIAMETER_UNABLE_TO_DELIVER,
                Some("malformed answer from backend"@),
            ),
            BackendReply::Failed(reason) => answer_to(
                sent,
                served.host,
                served.realm,
                if contains_text(reason@, "timed out"@) {
                    DIAMETER_TOO_BUSY
                } else {
                    DIAMETER_UNABLE_TO_DELIVER
                },
                Some(reason@),
            ),
        },
    )
}

impl PyDiameterRequest {
    /// The peer that sent the request.
    pub closed spec fn sender(&self) -> PyInboundPeer {
        self.peer
    }

    pub fn new(
        msg: DiameterMsg,
        peer: PyInboundPeer,
        local_origin_host: String,
        local_origin_realm: String,
    ) -> (r: Self)
        ensures
            r@ == (ServedText {
                msg: msg@,
                inbound_hbh: msg.hop_by_hop,
                inbound_e2e: msg.end_to_end,
                host: local_origin_host@,
                realm: local_origin_realm@,
            }),
            r.sender() == peer,
    {
        PyDiameterRequest {
            inbound_hbh: msg.hop_by_hop,
            inbound_e2e: msg.end_to_end,
            msg,
            peer,
            local_origin_host,
            local_origin_realm,
        }
    }

    pub fn application_id(&self) -> (r: u32)
        ensures
            r == self@.msg.application_id,
    {
        self.msg.application_id
    }

    pub fn application_name(&self, dict: &Dictionary) -> (r: Option<String>)
        ensures
            opt_text(r) == app_name(dict@.applications, self@.msg.application_id),
    {
        dict.app_name_by_id(self.msg.application_id)
    }

    /// The name of the command, as a request or as an answer.
    pub fn command_name(&self, dict: &Dictionary) -> (r: String)
        ensures
            r@ == command_title(
                dict@.commands,
                self@.msg.command_code,
                is_request_flags(self@.msg.flags),
            ),
    {
        dict.command_name(self.msg.command_code, self.msg.is_request())
    }

    pub fn command_code(&self) -> (r: u32)
        ensures
            r == self@.msg.command_code,
    {
        self.msg.command_code
    }

    pub fn session_id(&self) -> (r: Option<String>)
        ensures
            opt_text(r) == text_avp(self@.msg.avps, AVP_SESSION_ID),
    {
        self.msg.get_str(AVP_SESSION_ID)
    }

    pub fn origin_host(&self) -> (r: Option<String>)
        ensures
            opt_text(r) == text_avp(self@.msg.avps, AVP_ORIGIN_HOST),
    {
        self.msg.get_str(AVP_ORIGIN_HOST)
    }

    pub fn origin_realm(&self) -> (r: Option<String>)
        ensures
            opt_text(r) == text_avp(self@.msg.avps, AVP_ORIGIN_REALM),
    {
        self.msg.get_str(AVP_ORIGIN_REALM)
    }

    pub fn dest_realm(&self) -> (r: Option<String>)
        ensures
            opt_text(r) == text_avp(self@.msg.avps, AVP_DESTINATION_REALM),
    {
        self.msg.get_str(AVP_DESTINATION_REALM)
    }

    pub fn dest_host(&self) -> (r: Option<String>)
        ensures
            opt_text(r) == text_avp(self@.msg.avps, AVP_DESTINATION_HOST),
    {
        self.msg.get_str(AVP_DESTINATION_HOST)
    }

    pub fn is_request(&self) -> (r: bool)
        ensures
            r == is_request_flags(self@.msg.flags),
    {
        self.msg.is_request()
    }

    pub fn is_proxiable(&self) -> (r: bool)
        ensures
            r == is_proxiable_flags(self@.msg.flags),
    {
        self.msg.is_proxiable()
    }

    /// The peer that sent the request.
    pub fn peer(&self) -> (r: &PyInboundPeer)
        ensures
            *r == self.sender(),
    {
        &self.peer
    }

    pub fn get_avp(&self, dict: &Dictionary, code: u32, vendor: u32) -> (r: Option<PyValue>)
        ensures
            match find_avp(self@.msg.avps, code, vendor) {
                Some(a) => r is Some && r->0@ == avp_py(dict@, code, vendor, a),
                None => r is None,
            },
    {
        read_avp(dict, &self.msg, code, vendor)
    }

    pub fn iter_avps(&self, dict: &Dictionary) -> (r: Vec<PyValue>)
        ensures
            values_text(r@) == Seq::new(
                self@.msg.avps.len(),
                |i: int| avp_row(dict@, self@.msg.avps[i]),
            ),
    {
        list_avps(dict, &self.msg)
    }

    /// Replaces the AVPs of a code by one; nothing changes where that fails.
    pub fn set_avp(&mut self, dict: &Dictionary, code_or_name: &PyValue, value: &PyValue, vendor: u32) -> (r:
        Result<(), ScriptError>)
        ensures
            final(self).sender() == old(self).sender(),
            match r {
                Ok(_) => after_set_avp(dict@, old(self)@.msg, code_or_name@, value@, vendor) == Ok::<
                    MsgText,
                    ErrorText,
                >(final(self)@.msg) && final(self)@ == (ServedText {
                    msg: final(self)@.msg,
                    ..old(self)@
                }),
                Err(e) => after_set_avp(dict@, old(self)@.msg, code_or_name@, value@, vendor)
                    == Err::<MsgText, ErrorText>(e@) && final(self)@ == old(self)@,
            },
    {
        match build_assigned(dict, code_or_name, value, vendor) {
            Ok(avp) => {
                self.msg.set(avp);
                Ok(())
            },
            Err(e) => Err(e),
        }
    }

    /// Appends an AVP; nothing changes where that fails.
    pub fn insert_avp(&mut self, dict: &Dictionary, code_or_name: &PyValue, value: &PyValue, vendor: u32) -> (r:
        Result<(), ScriptError>)
        ensures
            final(self).sender() == old(self).sender(),
            match assigned_avp(dict@, code_or_name@, value@, vendor) {
                Ok(avp) => r is Ok && final(self)@ == (ServedText {
                    msg: (MsgText { avps: old(self)@.msg.avps.push(avp), ..old(self)@.msg }),
                    ..old(self)@
                }),
                Err(e) => r is Err && r->Err_0@ == e && final(self)@ == old(self)@,
            },
    {
        match build_assigned(dict, code_or_name, value, vendor) {
            Ok(avp) => {
                self.msg.push(avp);
                Ok(())
            },
            Err(e) => Err(e),
        }
    }

    /// Removes the AVPs of a code and says how many there were.
    pub fn remove_avp(&mut self, code: u32, vendor: u32) -> (r: usize)
        ensures
            final(self).sender() == old(self).sender(),
            final(self)@ == (ServedText {
                msg: (MsgText {
                    avps: without_avp(old(self)@.msg.avps, code, vendor),
                    ..old(self)@.msg
                }),
                ..old(self)@
            }),
            r == old(self)@.msg.avps.len() - without_avp(old(self)@.msg.avps, code, vendor).len(),
    {
        self.msg.remove(code, vendor)
    }

    /// The subscriber, from the User-Name AVP.
    pub fn extract_imsi(&self) -> (r: Option<String>)
        ensures
            opt_text(r) == text_avp(self@.msg.avps, AVP_USER_NAME),
    {
        self.msg.get_str(AVP_USER_NAME)
    }

    /// An answer with a result and the local identity, for the script to fill.
    pub fn answer(&self, result_code: u32, error_message: Option<&str>) -> (r: PyDiameterAnswer)
        ensures
            r@ == answer_to(
                self@.msg,
                self@.host,
                self@.realm,
                result_code,
                crate::text::opt_str(error_message),
            ),
    {
        PyDiameterAnswer::from_msg(
            build_answer(
                &self.msg,
                &self.local_origin_host,
                &self.local_origin_realm,
                result_code,
                error_message,
            ),
        )
    }

    /// An answer that refuses the request.
    pub fn reject(&self, result_code: u32, error_message: Option<&str>) -> (r: PyDiameterAnswer)
        ensures
            r@ == answer_to(
                self@.msg,
                self@.host,
                self@.realm,
                result_code,
                crate::text::opt_str(error_message),
            ),
    {
        self.answer(result_code, error_message)
    }

    /// First half of a relay to a backend. A request that already passed this
    /// host is answered as a loop; else it goes out under a fresh hop-by-hop
    /// identifier, with another origin where one is given.
    pub fn forward_to(&self, identity: Option<(&str, &str)>, next_hbh: u32) -> (r: ForwardStep)
        ensures
            ({
                let out = hidden(
                    self@,
                    match identity {
                        Some((host, realm)) => Some((host@, realm@)),
                        None => None,
                    },
                );
                match r {
                    ForwardStep::Answer(answer) => passed(out.avps, self@.host) && answer@
                        == under_inbound(
                        self@,
                        answer_to(
                            out,
                            self@.host,
                            self@.realm,
                            DIAMETER_LOOP_DETECTED,
                            Some(loop_message(self@.host)),
                        ),
                    ),
                    ForwardStep::Send(sent) => !passed(out.avps, self@.host) && sent@ == (MsgText {
                        hop_by_hop: next_hbh,
                        ..recorded(out, self@.host)
                    }),
                }
            }),
    {
        let mut tree = self.msg.copy();
        match identity {
            Some((host, realm)) => {
                tree.set(Avp::utf8(AVP_ORIGIN_HOST, 0, host));
                tree.set(Avp::utf8(AVP_ORIGIN_REALM, 0, realm));
            },
            None => {},
        }
        if has_passed(&tree, &self.local_origin_host) {
            let message = "loop detected: ".to_owned().concat(&self.local_origin_host).concat(
                " already in Route-Record",
            );
            let mut answer = build_answer(
                &tree,
                &self.local_origin_host,
                &self.local_origin_realm,
                DIAMETER_LOOP_DETECTED,
                Some(message.as_str()),
            );
            answer.hop_by_hop = self.inbound_hbh;
            answer.end_to_end = self.inbound_e2e;
            return ForwardStep::Answer(PyDiameterAnswer::from_msg(answer));
        }
        tree.push(Avp::utf8(AVP_ROUTE_RECORD, 0, &self.local_origin_host));
        tree.hop_by_hop = next_hbh;
        ForwardStep::Send(tree)
    }

    /// Second half of a relay: what goes back upstream for a backend's reply.
    pub fn complete_forward(&self, sent: &DiameterMsg, reply: BackendReply) -> (r: PyDiameterAnswer)
        ensures
            r@ == relayed(self@, sent@, reply),
    {
        let mut tree = match reply {
            BackendReply::Answered(answer) => answer,
            BackendReply::Malformed => build_answer(
                sent,
                &self.local_origin_host,
                &self.local_origin_realm,
                DIAMETER_UNABLE_TO_DELIVER,
                Some("malformed answer from backend"),
            ),
            BackendReply::Failed(reason) => {
                let result_code: u32 = if has_text(&reason, "timed out") {
                    DIAMETER_TOO_BUSY
                } else {
                    DIAMETER_UNABLE_TO_DELIVER
                };
                build_answer(
                    sent,
                    &self.local_origin_host,
                    &self.local_origin_realm,
                    result_code,
                    Some(reason.as_str()),
                )
            },
        };
        tree.hop_by_hop = self.inbound_hbh;
        tree.end_to_end = self.inbound_e2e;
        PyDiameterAnswer::from_msg(tree)
    }
}

/// An answer echoes the command, the application and the identifiers of its
/// request, carries its result, and is marked an error for 3xxx and 5xxx alone.
pub proof fn answer_echoes_request(
    request: MsgText,
    host: Seq<char>,
    realm: Seq<char>,
    result_code: u32,
    error_message: Option<Seq<char>>,
)
    ensures
        ({
            let a = answer_to(request, host, realm, result_code, error_message);
            &&& a.command_code == request.command_code
            &&& a.application_id == request.application_id
            &&& a.hop_by_hop == request.hop_by_hop
            &&& a.end_to_end == request.end_to_end
            &&& !is_request_flags(a.flags)
            &&& is_error_flags(a.flags) == is_error_code(result_code)
            &&& is_proxiable_flags(a.flags) == is_proxiable_flags(request.flags)
            &&& find_avp(a.avps, AVP_RESULT_CODE, 0) matches Some(found) && u32_of(found) == Some(
                result_code,
            )
            &&& text_avp(a.avps, AVP_SESSION_ID) == text_avp(request.avps, AVP_SESSION_ID)
        }),
{
    let a = answer_to(request, host, realm, result_code, error_message);
    lemma_pow256();
    be_round_trip(result_code as nat, 4);
    let code_bytes = be_bytes(result_code as nat, 4);
    assert(code_bytes.take(4) =~= code_bytes);
    let result = raw_avp(AVP_RESULT_CODE, 0, code_bytes);
    reveal_with_fuel(find_avp, 6);
    match text_avp(request.avps, AVP_SESSION_ID) {
        Some(id) => {
            encode_utf8_valid_utf8(id);
            vstd::utf8::encode_utf8_decode_utf8(id);
            assert(a.avps[0] == raw_avp(AVP_SESSION_ID, 0, encode_utf8(id)));
            assert(a.avps.skip(1)[0] == result);
        },
        None => {
            assert(a.avps[0] == result);
            assert(a.avps[1].code == AVP_ORIGIN_HOST);
            assert(a.avps[2].code == AVP_ORIGIN_REALM);
            assert(a.avps.skip(1)[0] == a.avps[1]);
            assert(a.avps.skip(1).skip(1)[0] == a.avps[2]);
            if error_message is Some {
                assert(a.avps.skip(1).skip(1).skip(1)[0].code == AVP_ERROR_MESSAGE);
            }
        },
    }
}

/// What was set by a script is what a script reads: the AVP under its code and
/// vendor is the one built from the value, and every other AVP is untouched.
pub proof fn set_avp_reads_back(
    dict: DictText,
    msg: MsgText,
    target: PyText,
    value: PyText,
    vendor: u32,
    other: u32,
    other_vendor: u32,
)
    requires
        after_set_avp(dict, msg, target, value, vendor) is Ok,
    ensures
        ({
            let after = after_set_avp(dict, msg, target, value, vendor)->Ok_0;
            let avp = assigned_avp(dict, target, value, vendor)->Ok_0;
            &&& find_avp(after.avps, avp.code, avp.vendor) == Some(avp)
            &&& (other != avp.code || other_vendor != avp.vendor) ==> find_avp(
                after.avps,
                other,
                other_vendor,
            ) == find_avp(msg.avps, other, other_vendor)
        }),
{
    set_avp_is_found(
        msg.avps,
        assigned_avp(dict, target, value, vendor)->Ok_0,
        other,
        other_vendor,
    );
}

/// A request that left this host is recognised when it comes back.
pub proof fn returning_request_is_a_loop(msg: MsgText, host: Seq<char>)
    ensures
        passed(recorded(msg, host).avps, host),
{
    let avps = recorded(msg, host).avps;
    let last = avps.len() - 1;
    assert(avps[last] == raw_avp(AVP_ROUTE_RECORD, 0, encode_utf8(host)));
    assert(avps[last] == (AvpText {
        flags: avps[last].flags,
        ..raw_avp(AVP_ROUTE_RECORD, 0, encode_utf8(host))
    }));
}

/// A backend's answer goes upstream under the identifiers of the request and
/// otherwise as it came; where there is none, the answer is an error, 3004 on
/// a timeout and 3002 else.
pub proof fn relayed_answer(served: ServedText, sent: MsgText, reply: BackendReply)
    ensures
        relayed(served, sent, reply).hop_by_hop == served.inbound_hbh,
        relayed(served, sent, reply).end_to_end == served.inbound_e2e,
        match reply {
            BackendReply::Answered(answer) => {
                &&& relayed(served, sent, reply).avps == answer@.avps
                &&& relayed(served, sent, reply).flags == answer@.flags
            },
            _ => {
                &&& is_error_flags(relayed(served, sent, reply).flags)
                &&& find_avp(relayed(served, sent, reply).avps, AVP_RESULT_CODE, 0) matches Some(a)
                    && u32_of(a) == Some(
                    if reply matches BackendReply::Failed(reason) && contains_text(
                        reason@,
                        "timed out"@,
                    ) {
                        DIAMETER_TOO_BUSY
                    } else {
                        DIAMETER_UNABLE_TO_DELIVER
                    },
                )
            },
        },
{
    match reply {
        BackendReply::Answered(_) => {},
        BackendReply::Malformed => {
            answer_echoes_request(
                sent,
                served.host,
                served.realm,
                DIAMETER_UNABLE_TO_DELIVER,
                Some("malformed answer from backend"@),
            );
        },
        BackendReply::Failed(reason) => {
            answer_echoes_request(
                sent,
                served.host,
                served.realm,
                DIAMETER_TOO_BUSY,
                Some(reason@),
            );
            answer_echoes_request(
                sent,
                served.host,
                served.realm,
                DIAMETER_UNABLE_TO_DELIVER,
                Some(reason@),
            );
        },
    }
}

} // verus!
