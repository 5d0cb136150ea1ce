//! Rx: the AA-Request that asks a PCRF for bearer resources (3GPP TS 29.214).

use super::codec::{
    append_bytes, avp_of, encode_message, encode_octet, encode_text, encode_u32, message_frame,
    VENDOR_3GPP,
};
use crate::bytes::{be_bytes, to_be, to_be_wide};
use crate::error::{key_error, type_error, value_error, ErrorText, ScriptError};
use crate::net::{ip_of, IpAddr};
use crate::pyvalue::{
    as_bytes, as_text, as_texts, as_u32, entry, lemma_list_text, values_text, PyText,
    PyValue,
};
use crate::text::{
    debug_quoted, decimal, decimal_text, lower, opt_text, quote_debug, same_text, texts,
    to_lower,
};
use vstd::prelude::*;
use vstd::string::*;
use vstd::utf8::encode_utf8;

verus! {

pub const AVP_FRAMED_IP_ADDRESS: u32 = 8;

pub const AVP_FRAMED_IPV6_PREFIX: u32 = 97;

pub const AVP_AUTH_APPLICATION_ID: u32 = 258;

pub const AVP_SESSION_ID: u32 = 263;

pub const AVP_ORIGIN_HOST: u32 = 264;

pub const AVP_DESTINATION_REALM: u32 = 283;

pub const AVP_ORIGIN_REALM: u32 = 296;

pub const AVP_SUBSCRIPTION_ID: u32 = 443;

pub const AVP_SUBSCRIPTION_ID_DATA: u32 = 444;

pub const AVP_SUBSCRIPTION_ID_TYPE: u32 = 450;

pub const AVP_AF_APPLICATION_IDENTIFIER: u32 = 504;

pub const AVP_FLOW_DESCRIPTION: u32 = 507;

pub const AVP_FLOW_NUMBER: u32 = 509;

pub const AVP_FLOW_STATUS: u32 = 511;

pub const AVP_FLOW_USAGE: u32 = 512;

pub const AVP_MAX_REQUESTED_BANDWIDTH_DL: u32 = 515;

pub const AVP_MAX_REQUESTED_BANDWIDTH_UL: u32 = 516;

pub const AVP_MEDIA_COMPONENT_DESCRIPTION: u32 = 517;

pub const AVP_MEDIA_COMPONENT_NUMBER: u32 = 518;

pub const AVP_MEDIA_SUB_COMPONENT: u32 = 519;

pub const AVP_MEDIA_TYPE: u32 = 520;

pub const AVP_CODEC_DATA: u32 = 524;

pub const CMD_AA: u32 = 265;

pub const RX_APP_ID: u32 = 16777236;

#[derive(Clone, Copy, Debug, PartialEq, Eq, Structural)]
pub enum MediaType {
    Audio,
    Video,
    Data,
    Application,
    Control,
    Text,
    Message,
    Other,
}

#[derive(Clone, Copy, Debug, PartialEq, Eq, Structural)]
pub enum FlowStatus {
    EnabledUplink,
    EnabledDownlink,
    Enabled,
    Disabled,
    Removed,
}

#[derive(Clone, Copy, Debug, PartialEq, Eq, Structural)]
pub enum FlowUsage {
    NoInformation,
    Rtcp,
    AfSignalling,
}

pub open spec fn media_type_code(m: MediaType) -> u32 {
    match m {
        MediaType::Audio => 0,
        MediaType::Video => 1,
        MediaType::Data => 2,
        MediaType::Application => 3,
        MediaType::Control => 4,
        MediaType::Text => 5,
        MediaType::Message => 6,
        MediaType::Other => 0xFFFFFFFF,
    }
}

pub open spec fn flow_status_code(s: FlowStatus) -> u32 {
    match s {
        FlowStatus::EnabledUplink => 0,
        FlowStatus::EnabledDownlink => 1,
        FlowStatus::Enabled => 2,
        FlowStatus::Disabled => 3,
        FlowStatus::Removed => 4,
    }
}

pub open spec fn flow_usage_code(u: FlowUsage) -> u32 {
    match u {
        FlowUsage::NoInformation => 0,
        FlowUsage::Rtcp => 1,
        FlowUsage::AfSignalling => 2,
    }
}

impl MediaType {
    pub fn code(&self) -> (r: u32)
        ensures
            r == media_type_code(*self),
    {
        match self {
            MediaType::Audio => 0,
            MediaType::Video => 1,
            MediaType::Data => 2,
            MediaType::Application => 3,
            MediaType::Control => 4,
            MediaType::Text => 5,
            MediaType::Message => 6,
            MediaType::Other => 0xFFFFFFFF,
        }
    }
}

impl FlowStatus {
    pub fn code(&self) -> (r: u32)
        ensures
            r == flow_status_code(*self),
    {
        match self {
            FlowStatus::EnabledUplink => 0,
            FlowStatus::EnabledDownlink => 1,
            FlowStatus::Enabled => 2,
            FlowStatus::Disabled => 3,
            FlowStatus::Removed => 4,
        }
    }
}

impl FlowUsage {
    pub fn code(&self) -> (r: u32)
        ensures
            r == flow_usage_code(*self),
    {
        match self {
            FlowUsage::NoInformation => 0,
            FlowUsage::Rtcp => 1,
            FlowUsage::AfSignalling => 2,
        }
    }
}

/// The media type that a name means, without regard to case.
pub open spec fn media_type_of(s: Seq<char>) -> Result<MediaType, ErrorText> {
    let name = lower(s);
    if name == "audio"@ {
        Ok(MediaType::Audio)
    } else if name == "video"@ {
        Ok(MediaType::Video)
    } else if name == "data"@ {
        Ok(MediaType::Data)
    } else if name == "application"@ {
        Ok(MediaType::Application)
    } else if name == "control"@ {
        Ok(MediaType::Control)
    } else if name == "text"@ {
        Ok(MediaType::Text)
    } else if name == "message"@ {
        Ok(MediaType::Message)
    } else if name == "other"@ {
        Ok(MediaType::Other)
    } else {
        Err(
            value_error(
                "unknown media_type "@ + debug_quoted(name)
                    + " (expected audio|video|data|application|control|text|message|other)"@,
            ),
        )
    }
}

pub fn media_type_from_str(s: &str) -> (r: Result<MediaType, ScriptError>)
    ensures
        match r {
            Ok(m) => media_type_of(s@) == Ok::<MediaType, ErrorText>(m),
            Err(e) => media_type_of(s@) == Err::<MediaType, ErrorText>(e@),
        },
{
    let name = to_lower(s);
    if same_text(&name, "audio") {
        Ok(MediaType::Audio)
    } else if same_text(&name, "video") {
        Ok(MediaType::Video)
    } else if same_text(&name, "data") {
        Ok(MediaType::Data)
    } else if same_text(&name, "application") {
        Ok(MediaType::Application)
    } else if same_text(&name, "control") {
        Ok(MediaType::Control)
    } else if same_text(&name, "text") {
        Ok(MediaType::Text)
    } else if same_text(&name, "message") {
        Ok(MediaType::Message)
    } else if same_text(&name, "other") {
        Ok(MediaType::Other)
    } else {
        Err(
            ScriptError::value(
                "unknown media_type ".to_owned().concat(&quote_debug(&name)).concat(
                    " (expected audio|video|data|application|control|text|message|other)",
                ),
            ),
        )
    }
}

/// The flow status that a name means, without regard to case.
pub open spec fn flow_status_of(s: Seq<char>) -> Result<FlowStatus, ErrorText> {
    let name = lower(s);
    if name == "enabled"@ {
        Ok(FlowStatus::Enabled)
    } else if name == "disabled"@ {
        Ok(FlowStatus::Disabled)
    } else if name == "removed"@ {
        Ok(FlowStatus::Removed)
    } else if name == "enabled-up"@ || name == "enabled_uplink"@ || name == "enabled-uplink"@ {
        Ok(FlowStatus::EnabledUplink)
    } else if name == "enabled-down"@ || name == "enabled_downlink"@ || name == "enabled-downlink"@ {
        Ok(FlowStatus::EnabledDownlink)
    } else {
        Err(
            value_error(
                "unknown flow_status "@ + debug_quoted(name)
                    + " (expected enabled|disabled|removed|enabled-up|enabled-down)"@,
            ),
        )
    }
}

pub fn flow_status_from_str(s: &str) -> (r: Result<FlowStatus, ScriptError>)
    ensures
        match r {
            Ok(m) => flow_status_of(s@) == Ok::<FlowStatus, ErrorText>(m),
            Err(e) => flow_status_of(s@) == Err::<FlowStatus, ErrorText>(e@),
        },
{
    let name = to_lower(s);
    if same_text(&name, "enabled") {
        Ok(FlowStatus::Enabled)
    } else if same_text(&name, "disabled") {
        Ok(FlowStatus::Disabled)
    } else if same_text(&name, "removed") {
        Ok(FlowStatus::Removed)
    } else if same_text(&name, "enabled-up") || same_text(&name, "enabled_uplink") || same_text(
        &name,
        "enabled-uplink",
    ) {
        Ok(FlowStatus::EnabledUplink)
    } else if same_text(&name, "enabled-down") || same_text(&name, "enabled_downlink") || same_text(
        &name,
        "enabled-downlink",
    ) {
        Ok(FlowStatus::EnabledDownlink)
    } else {
        Err(
            ScriptError::value(
                "unknown flow_status ".to_owned().concat(&quote_debug(&name)).concat(
                    " (expected enabled|disabled|removed|enabled-up|enabled-down)",
                ),
            ),
        )
    }
}

/// The flow usage that a name means, without regard to case.
pub open spec fn flow_usage_of(s: Seq<char>) -> Result<FlowUsage, ErrorText> {
    let name = lower(s);
    if name == "no_information"@ || name == "no-information"@ || name == "none"@ {
        Ok(FlowUsage::NoInformation)
    } else if name == "rtcp"@ {
        Ok(FlowUsage::Rtcp)
    } else if name == "af_signalling"@ || name == "af-signalling"@ || name == "signalling"@ {
        Ok(FlowUsage::AfSignalling)
    } else {
        Err(
            value_error(
                "unknown flow usage "@ + debug_quoted(name)
                    + " (expected no_information|rtcp|af_signalling)"@,
            ),
        )
    }
}

pub fn flow_usage_from_str(s: &str) -> (r: Result<FlowUsage, ScriptError>)
    ensures
        match r {
            Ok(m) => flow_usage_of(s@) == Ok::<FlowUsage, ErrorText>(m),
            Err(e) => flow_usage_of(s@) == Err::<FlowUsage, ErrorText>(e@),
        },
{
    let name = to_lower(s);
    if same_text(&name, "no_information") || same_text(&name, "no-information") || same_text(
        &name,
        "none",
    ) {
        Ok(FlowUsage::NoInformation)
    } else if same_text(&name, "rtcp") {
        Ok(FlowUsage::Rtcp)
    } else if same_text(&name, "af_signalling") || same_text(&name, "af-signalling") || same_text(
        &name,
        "signalling",
    ) {
        Ok(FlowUsage::AfSignalling)
    } else {
        Err(
            ScriptError::value(
                "unknown flow usage ".to_owned().concat(&quote_debug(&name)).concat(
                    " (expected no_information|rtcp|af_signalling)",
                ),
            ),
        )
    }
}

/// One flow of a media component.
pub struct MediaFlow {
    pub flow_number: u32,
    pub descriptions: Vec<String>,
    pub status: Option<FlowStatus>,
    pub usage: Option<FlowUsage>,
}

pub struct FlowText {
    pub flow_number: u32,
    pub descriptions: Seq<Seq<char>>,
    pub status: Option<FlowStatus>,
    pub usage: Option<FlowUsage>,
}

impl View for MediaFlow {
    type V = FlowText;

    open spec fn view(&self) -> FlowText {
        FlowText {
            flow_number: self.flow_number,
            descriptions: texts(self.descriptions@),
            status: self.status,
            usage: self.usage,
        }
    }
}

pub open spec fn flows_text(v: Seq<MediaFlow>) -> Seq<FlowText> {
    Seq::new(v.len(), |i: int| v[i]@)
}

/// One media component of a session.
pub struct MediaComponent {
    pub number: u32,
    pub media_type: MediaType,
    pub flows: Vec<MediaFlow>,
    pub max_bandwidth_ul: Option<u32>,
    pub max_bandwidth_dl: Option<u32>,
    pub flow_status: Option<FlowStatus>,
    pub codec_data: Option<Vec<u8>>,
}

pub struct ComponentText {
    pub number: u32,
    pub media_type: MediaType,
    pub flows: Seq<FlowText>,
    pub max_bandwidth_ul: Option<u32>,
    pub max_bandwidth_dl: Option<u32>,
    pub flow_status: Option<FlowStatus>,
    pub codec_data: Option<Seq<u8>>,
}

impl View for MediaComponent {
    type V = ComponentText;

    open spec fn view(&self) -> ComponentText {
        ComponentText {
            number: self.number,
            media_type: self.media_type,
            flows: flows_text(self.flows@),
            max_bandwidth_ul: self.max_bandwidth_ul,
            max_bandwidth_dl: self.max_bandwidth_dl,
            flow_status: self.flow_status,
            codec_data: match self.codec_data {
                Some(b) => Some(b@),
                None => None,
            },
        }
    }
}

pub open spec fn components_text(v: Seq<MediaComponent>) -> Seq<ComponentText> {
    Seq::new(v.len(), |i: int| v[i]@)
}

/// `media_components[idx]`.
pub open spec fn component_label(idx: int) -> Seq<char> {
    "media_components["@ + decimal(idx as nat) + "]"@
}

/// `media_components[idx].flows[fidx]`.
pub open spec fn flow_label(idx: int, fidx: int) -> Seq<char> {
    component_label(idx) + ".flows["@ + decimal(fidx as nat) + "]"@
}

/// The number under a key, where the key is there.
pub open spec fn opt_number(d: Seq<(Seq<char>, PyText)>, key: Seq<char>) -> Result<
    Option<u32>,
    ErrorText,
> {
    match entry(d, key) {
        None => Ok(None),
        Some(v) => match as_u32(v) {
            Ok(n) => Ok(Some(n as u32)),
            Err(e) => Err(e),
        },
    }
}

pub open spec fn opt_status(d: Seq<(Seq<char>, PyText)>, key: Seq<char>) -> Result<
    Option<FlowStatus>,
    ErrorText,
> {
    match entry(d, key) {
        None => Ok(None),
        Some(v) => match as_text(v) {
            Ok(s) => match flow_status_of(s) {
                Ok(status) => Ok(Some(status)),
                Err(e) => Err(e),
            },
            Err(e) => Err(e),
        },
    }
}

pub open spec fn opt_usage(d: Seq<(Seq<char>, PyText)>, key: Seq<char>) -> Result<
    Option<FlowUsage>,
    ErrorText,
> {
    match entry(d, key) {
        None => Ok(None),
        Some(v) => match as_text(v) {
            Ok(s) => match flow_usage_of(s) {
                Ok(usage) => Ok(Some(usage)),
                Err(e) => Err(e),
            },
            Err(e) => Err(e),
        },
    }
}

pub open spec fn opt_octets(d: Seq<(Seq<char>, PyText)>, key: Seq<char>) -> Result<
    Option<Seq<u8>>,
    ErrorText,
> {
    match entry(d, key) {
        None => Ok(None),
        Some(v) => match as_bytes(v) {
            Ok(b) => Ok(Some(b)),
            Err(e) => Err(e),
        },
    }
}

/// The number under a key that has to be there.
pub open spec fn required_number(d: Seq<(Seq<char>, PyText)>, label: Seq<char>) -> Result<
    u32,
    ErrorText,
> {
    match entry(d, "number"@) {
        None => Err(key_error(label + " missing 'number'"@)),
        Some(v) => match as_u32(v) {
            Ok(n) => Ok(n as u32),
            Err(e) => Err(e),
        },
    }
}

/// A flow as a script describes it.
pub open spec fn flow_of(p: PyText, label: Seq<char>) -> Result<FlowText, ErrorText> {
    match p {
        PyText::Dict(d) => match required_number(d, label) {
            Err(e) => Err(e),
            Ok(flow_number) => match (match entry(d, "descriptions"@) {
                None => Ok(Seq::empty()),
                Some(v) => as_texts(v),
            }) {
                Err(e) => Err(e),
                Ok(descriptions) => match opt_status(d, "status"@) {
                    Err(e) => Err(e),
                    Ok(status) => match opt_usage(d, "usage"@) {
                        Err(e) => Err(e),
                        Ok(usage) => Ok(FlowText { flow_number, descriptions, status, usage }),
                    },
                },
            },
        },
        _ => Err(type_error(label + " must be a dict"@)),
    }
}

/// The first `n` flows of a list, or the first error among them.
pub open spec fn flows_of(v: Seq<PyText>, idx: int, n: nat) -> Result<Seq<FlowText>, ErrorText>
    decreases n,
{
    if n == 0 {
        Ok(Seq::empty())
    } else {
        match flows_of(v, idx, (n - 1) as nat) {
            Err(e) => Err(e),
            Ok(before) => match flow_of(v[n - 1], flow_label(idx, n - 1)) {
                Err(e) => Err(e),
                Ok(flow) => Ok(before.push(flow)),
            },
        }
    }
}

/// A media component as a script describes it.
pub open spec fn component_of(p: PyText, idx: int) -> Result<ComponentText, ErrorText> {
    let label = component_label(idx);
    match p {
        PyText::Dict(d) => match required_number(d, label) {
            Err(e) => Err(e),
            Ok(number) => match entry(d, "media_type"@) {
                None => Err(key_error(label + " missing 'media_type'"@)),
                Some(kind) => match as_text(kind) {
                    Err(e) => Err(e),
                    Ok(name) => match media_type_of(name) {
                        Err(e) => Err(e),
                        Ok(media_type) => component_rest(d, idx, number, media_type),
                    },
                },
            },
        },
        _ => Err(type_error(label + " must be a dict"@)),
    }
}

/// A media component whose number and type are known.
pub open spec fn component_rest(
    d: Seq<(Seq<char>, PyText)>,
    idx: int,
    number: u32,
    media_type: MediaType,
) -> Result<ComponentText, ErrorText> {
    match opt_number(d, "max_bandwidth_ul"@) {
        Err(e) => Err(e),
        Ok(max_bandwidth_ul) => match opt_number(d, "max_bandwidth_dl"@) {
            Err(e) => Err(e),
            Ok(max_bandwidth_dl) => match opt_status(d, "flow_status"@) {
                Err(e) => Err(e),
                Ok(flow_status) => match opt_octets(d, "codec_data"@) {
                    Err(e) => Err(e),
                    Ok(codec_data) => match component_flows(d, idx) {
                        Err(e) => Err(e),
                        Ok(flows) => Ok(
                            ComponentText {
                                number,
                                media_type,
                                flows,
                                max_bandwidth_ul,
                                max_bandwidth_dl,
                                flow_status,
                                codec_data,
                            },
                        ),
                    },
                },
            },
        },
    }
}

pub open spec fn component_flows(d: Seq<(Seq<char>, PyText)>, idx: int) -> Result<
    Seq<FlowText>,
    ErrorText,
> {
    match entry(d, "flows"@) {
        None => Ok(Seq::empty()),
        Some(PyText::List(v)) => flows_of(v, idx, v.len()),
        Some(_) => Err(type_error(component_label(idx) + ".flows must be a list"@)),
    }
}

/// The first `n` components of a list, or the first error among them.
pub open spec fn components_of(v: Seq<PyText>, n: nat) -> Result<Seq<ComponentText>, ErrorText>
    decreases n,
{
    if n == 0 {
        Ok(Seq::empty())
    } else {
        match components_of(v, (n - 1) as nat) {
            Err(e) => Err(e),
            Ok(before) => match component_of(v[n - 1], n - 1) {
                Err(e) => Err(e),
                Ok(component) => Ok(before.push(component)),
            },
        }
    }
}

/// The media components that a script value describes.
pub open spec fn media_components(p: PyText) -> Result<Seq<ComponentText>, ErrorText> {
    match p {
        PyText::List(v) => components_of(v, v.len()),
        _ => Err(type_error("media_components must be a list of dicts"@)),
    }
}

fn read_opt_number(dict: &PyValue, key: &str) -> (r: Result<Option<u32>, ScriptError>)
    requires
        dict@ is Dict,
    ensures
        match r {
            Ok(n) => opt_number(dict@->Dict_0, key@) == Ok::<Option<u32>, ErrorText>(n),
            Err(e) => opt_number(dict@->Dict_0, key@) == Err::<Option<u32>, ErrorText>(e@),
        },
{
    match dict.get_item(key) {
        None => Ok(None),
        Some(v) => match v.as_u32() {
            Ok(n) => Ok(Some(n)),
            Err(e) => Err(e),
        },
    }
}

fn read_opt_status(dict: &PyValue, key: &str) -> (r: Result<Option<FlowStatus>, ScriptError>)
    requires
        dict@ is Dict,
    ensures
        match r {
            Ok(s) => opt_status(dict@->Dict_0, key@) == Ok::<Option<FlowStatus>, ErrorText>(s),
            Err(e) => opt_status(dict@->Dict_0, key@) == Err::<Option<FlowStatus>, ErrorText>(e@),
        },
{
    match dict.get_item(key) {
        None => Ok(None),
        Some(v) => match v.as_text() {
            Ok(s) => match flow_status_from_str(&s) {
                Ok(status) => Ok(Some(status)),
                Err(e) => Err(e),
            },
            Err(e) => Err(e),
        },
    }
}

fn read_opt_usage(dict: &PyValue, key: &str) -> (r: Result<Option<FlowUsage>, ScriptError>)
    requires
        dict@ is Dict,
    ensures
        match r {
            Ok(s) => opt_usage(dict@->Dict_0, key@) == Ok::<Option<FlowUsage>, ErrorText>(s),
            Err(e) => opt_usage(dict@->Dict_0, key@) == Err::<Option<FlowUsage>, ErrorText>(e@),
        },
{
    match dict.get_item(key) {
        None => Ok(None),
        Some(v) => match v.as_text() {
            Ok(s) => match flow_usage_from_str(&s) {
                Ok(usage) => Ok(Some(usage)),
                Err(e) => Err(e),
            },
            Err(e) => Err(e),
        },
    }
}

fn read_number(dict: &PyValue, label: &str) -> (r: Result<u32, ScriptError>)
    requires
        dict@ is Dict,
    ensures
        match r {
            Ok(n) => required_number(dict@->Dict_0, label@) == Ok::<u32, ErrorText>(n),
            Err(e) => required_number(dict@->Dict_0, label@) == Err::<u32, ErrorText>(e@),
        },
{
    match dict.get_item("number") {
        None => Err(ScriptError::key(label.to_owned().concat(" missing 'number'"))),
        Some(v) => v.as_u32(),
    }
}

fn parse_flow(flow: &PyValue, label: &str) -> (r: Result<MediaFlow, ScriptError>)
    ensures
        match r {
            Ok(f) => flow_of(flow@, label@) == Ok::<FlowText, ErrorText>(f@),
            Err(e) => flow_of(flow@, label@) == Err::<FlowText, ErrorText>(e@),
        },
{
    match flow {
        PyValue::Dict(_) => {},
        _ => {
            return Err(ScriptError::type_(label.to_owned().concat(" must be a dict")));
        },
    }
    let flow_number = match read_number(flow, label) {
        Ok(n) => n,
        Err(e) => {
            return Err(e);
        },
    };
    let descriptions = match flow.get_item("descriptions") {
        None => Vec::new(),
        Some(v) => match v.as_texts() {
            Ok(d) => d,
            Err(e) => {
                return Err(e);
            },
        },
    };
    let status = match read_opt_status(flow, "status") {
        Ok(s) => s,
        Err(e) => {
            return Err(e);
        },
    };
    let usage = match read_opt_usage(flow, "usage") {
        Ok(u) => u,
        Err(e) => {
            return Err(e);
        },
    };
    let f = MediaFlow { flow_number, descriptions, status, usage };
    assert(entry(flow@->Dict_0, "descriptions"@) is None ==> texts(f.descriptions@)
        =~= Seq::<Seq<char>>::empty());
    Ok(f)
}

proof fn lemma_flows_error(v: Seq<PyText>, idx: int, n: nat, m: nat)
    requires
        n <= m,
        flows_of(v, idx, n) is Err,
    ensures
        flows_of(v, idx, m) == flows_of(v, idx, n),
    decreases m,
{
    if n < m {
        lemma_flows_error(v, idx, n, (m - 1) as nat);
    }
}

proof fn lemma_components_error(v: Seq<PyText>, n: nat, m: nat)
    requires
        n <= m,
        components_of(v, n) is Err,
    ensures
        components_of(v, m) == components_of(v, n),
    decreases m,
{
    if n < m {
        lemma_components_error(v, n, (m - 1) as nat);
    }
}

fn parse_flows(component: &PyValue, idx: usize, label: &str) -> (r: Result<Vec<MediaFlow>, ScriptError>)
    requires
        component@ is Dict,
        label@ == component_label(idx as int),
    ensures
        match r {
            Ok(f) => component_flows(component@->Dict_0, idx as int) == Ok::<
                Seq<FlowText>,
                ErrorText,
            >(flows_text(f@)),
            Err(e) => component_flows(component@->Dict_0, idx as int) == Err::<
                Seq<FlowText>,
                ErrorText,
            >(e@),
        },
{
    let mut out: Vec<MediaFlow> = Vec::new();
    assert(flows_text(out@) =~= Seq::<FlowText>::empty());
    let list = match component.get_item("flows") {
        None => {
            return Ok(out);
        },
        Some(PyValue::List(v)) => v,
        Some(_) => {
            return Err(ScriptError::type_(label.to_owned().concat(".flows must be a list")));
        },
    };
    proof {
        lemma_list_text(*list);
    }
    let ghost items = values_text(list@);
    let mut i: usize = 0;
    while i < list.len()
        invariant
            i <= list@.len(),
            items == values_text(list@),
            label@ == component_label(idx as int),
            component_flows(component@->Dict_0, idx as int) == flows_of(
                items,
                idx as int,
                items.len(),
            ),
            flows_of(items, idx as int, i as nat) == Ok::<Seq<FlowText>, ErrorText>(
                flows_text(out@),
            ),
        decreases list@.len() - i,
    {
        let flow_name = label.to_owned().concat(".flows[").concat(&decimal_text(i as u64)).concat(
            "]",
        );
        match parse_flow(&list[i], &flow_name) {
            Ok(flow) => {
                let ghost before = out@;
                out.push(flow);
                assert(flows_text(out@) =~= flows_text(before).push(flow@));
            },
            Err(e) => {
                proof {
                    lemma_flows_error(items, idx as int, (i + 1) as nat, items.len());
                }
                return Err(e);
            },
        }
        i += 1;
    }
    Ok(out)
}

fn parse_component(component: &PyValue, idx: usize) -> (r: Result<MediaComponent, ScriptError>)
    ensures
        match r {
            Ok(c) => component_of(component@, idx as int) == Ok::<ComponentText, ErrorText>(c@),
            Err(e) => component_of(component@, idx as int) == Err::<ComponentText, ErrorText>(e@),
        },
{
    let label = "media_components[".to_owned().concat(&decimal_text(idx as u64)).concat("]");
    match component {
        PyValue::Dict(_) => {},
        _ => {
            return Err(ScriptError::type_(label.concat(" must be a dict")));
        },
    }
    let number = match read_number(component, &label) {
        Ok(n) => n,
        Err(e) => {
            return Err(e);
        },
    };
    let type_text = match component.get_item("media_type") {
        None => {
            return Err(ScriptError::key(label.concat(" missing 'media_type'")));
        },
        Some(v) => match v.as_text() {
            Ok(s) => s,
            Err(e) => {
                return Err(e);
            },
        },
    };
    let media_type = match media_type_from_str(&type_text) {
        Ok(m) => m,
        Err(e) => {
            return Err(e);
        },
    };
    let max_bandwidth_ul = match read_opt_number(component, "max_bandwidth_ul") {
        Ok(n) => n,
        Err(e) => {
            return Err(e);
        },
    };
    let max_bandwidth_dl = match read_opt_number(component, "max_bandwidth_dl") {
        Ok(n) => n,
        Err(e) => {
            return Err(e);
        },
    };
    let flow_status = match read_opt_status(component, "flow_status") {
        Ok(s) => s,
        Err(e) => {
            return Err(e);
        },
    };
    let codec_data = match component.get_item("codec_data") {
        None => None,
        Some(v) => match v.as_bytes() {
            Ok(b) => Some(b),
            Err(e) => {
                return Err(e);
            },
        },
    };
    let flows = match parse_flows(component, idx, &label) {
        Ok(f) => f,
        Err(e) => {
            return Err(e);
        },
    };
    Ok(
        MediaComponent {
            number,
            media_type,
            flows,
            max_bandwidth_ul,
            max_bandwidth_dl,
            flow_status,
            codec_data,
        },
    )
}

/// Reads the media components of a session from a script value: a list of
/// dicts with `number` and `media_type`, and optionally `max_bandwidth_ul`,
/// `max_bandwidth_dl`, `flow_status`, `codec_data` and `flows`.
pub fn parse_media_components(obj: &PyValue) -> (r: Result<Vec<MediaComponent>, ScriptError>)
    ensures
        match r {
            Ok(c) => media_components(obj@) == Ok::<Seq<ComponentText>, ErrorText>(
                components_text(c@),
            ),
            Err(e) => media_components(obj@) == Err::<Seq<ComponentText>, ErrorText>(e@),
        },
{
    let list = match obj {
        PyValue::List(v) => v,
        _ => {
            return Err(ScriptError::type_("media_components must be a list of dicts".to_owned()));
        },
    };
    proof {
        lemma_list_text(*list);
    }
    let ghost items = values_text(list@);
    let mut out: Vec<MediaComponent> = Vec::new();
    assert(components_text(out@) =~= Seq::<ComponentText>::empty());
    let mut i: usize = 0;
    while i < list.len()
        invariant
            i <= list@.len(),
            items == values_text(list@),
            media_components(obj@) == components_of(items, items.len()),
            components_of(items, i as nat) == Ok::<Seq<ComponentText>, ErrorText>(
                components_text(out@),
            ),
        decreases list@.len() - i,
    {
        match parse_component(&list[i], i) {
            Ok(component) => {
                let ghost before = out@;
                out.push(component);
                assert(components_text(out@) =~= components_text(before).push(component@));
            },
            Err(e) => {
                proof {
                    lemma_components_error(items, (i + 1) as nat, items.len());
                }
                return Err(e);
            },
        }
        i += 1;
    }
    Ok(out)
}

/// An AVP of the 3GPP vendor for an optional number.
pub open spec fn opt_u32_avp(code: u32, value: Option<u32>) -> Seq<u8> {
    match value {
        Some(n) => avp_of(code, VENDOR_3GPP, be_bytes(n as nat, 4)),
        None => Seq::empty(),
    }
}

pub open spec fn status_number(s: Option<FlowStatus>) -> Option<u32> {
    match s {
        Some(status) => Some(flow_status_code(status)),
        None => None,
    }
}

pub open spec fn usage_number(u: Option<FlowUsage>) -> Option<u32> {
    match u {
        Some(usage) => Some(flow_usage_code(usage)),
        None => None,
    }
}

/// The Flow-Description AVPs of the first `n` rules.
pub open spec fn descriptions_wire(v: Seq<Seq<char>>, n: nat) -> Seq<u8>
    decreases n,
{
    if n == 0 {
        Seq::empty()
    } else {
        descriptions_wire(v, (n - 1) as nat) + avp_of(
            AVP_FLOW_DESCRIPTION,
            VENDOR_3GPP,
            encode_utf8(v[n - 1]),
        )
    }
}

/// A Media-Sub-Component AVP.
pub open spec fn flow_wire(f: FlowText) -> Seq<u8> {
    avp_of(
        AVP_MEDIA_SUB_COMPONENT,
        VENDOR_3GPP,
        avp_of(AVP_FLOW_NUMBER, VENDOR_3GPP, be_bytes(f.flow_number as nat, 4)) + descriptions_wire(
            f.descriptions,
            f.descriptions.len(),
        ) + opt_u32_avp(AVP_FLOW_STATUS, status_number(f.status)) + opt_u32_avp(
            AVP_FLOW_USAGE,
            usage_number(f.usage),
        ),
    )
}

pub open spec fn flows_wire(v: Seq<FlowText>, n: nat) -> Seq<u8>
    decreases n,
{
    if n == 0 {
        Seq::empty()
    } else {
        flows_wire(v, (n - 1) as nat) + flow_wire(v[n - 1])
    }
}

/// A Media-Component-Description AVP.
pub open spec fn component_wire(c: ComponentText) -> Seq<u8> {
    avp_of(
        AVP_MEDIA_COMPONENT_DESCRIPTION,
        VENDOR_3GPP,
        avp_of(AVP_MEDIA_COMPONENT_NUMBER, VENDOR_3GPP, be_bytes(c.number as nat, 4)) + flows_wire(
            c.flows,
            c.flows.len(),
        ) + avp_of(
            AVP_MEDIA_TYPE,
            VENDOR_3GPP,
            be_bytes(media_type_code(c.media_type) as nat, 4),
        ) + opt_u32_avp(AVP_MAX_REQUESTED_BANDWIDTH_UL, c.max_bandwidth_ul) + opt_u32_avp(
            AVP_MAX_REQUESTED_BANDWIDTH_DL,
            c.max_bandwidth_dl,
        ) + opt_u32_avp(AVP_FLOW_STATUS, status_number(c.flow_status)) + match c.codec_data {
            Some(data) => avp_of(AVP_CODEC_DATA, VENDOR_3GPP, data),
            None => Seq::empty(),
        },
    )
}

pub open spec fn components_wire(v: Seq<ComponentText>, n: nat) -> Seq<u8>
    decreases n,
{
    if n == 0 {
        Seq::empty()
    } else {
        components_wire(v, (n - 1) as nat) + component_wire(v[n - 1])
    }
}

fn append_opt_u32(out: &mut Vec<u8>, code: u32, value: Option<u32>)
    ensures
        final(out)@ == old(out)@ + opt_u32_avp(code, value),
{
    match value {
        Some(n) => append_bytes(out, encode_u32(code, VENDOR_3GPP, n).as_slice()),
        None => {
            assert(out@ + Seq::<u8>::empty() =~= out@);
        },
    }
}

fn opt_status_code(status: &Option<FlowStatus>) -> (r: Option<u32>)
    ensures
        r == status_number(*status),
{
    match status {
        Some(s) => Some(s.code()),
        None => None,
    }
}

impl MediaFlow {
    /// The Media-Sub-Component AVP of the flow.
    pub fn encode(&self) -> (r: Vec<u8>)
        ensures
            r@ == flow_wire(self@),
    {
        let mut inner = encode_u32(AVP_FLOW_NUMBER, VENDOR_3GPP, self.flow_number);
        let ghost start = inner@;
        let mut i: usize = 0;
        assert(start + descriptions_wire(self@.descriptions, 0) =~= start);
        while i < self.descriptions.len()
            invariant
                i <= self.descriptions@.len(),
                inner@ == start + descriptions_wire(texts(self.descriptions@), i as nat),
            decreases self.descriptions@.len() - i,
        {
            let rule = encode_text(AVP_FLOW_DESCRIPTION, VENDOR_3GPP, &self.descriptions[i]);
            let ghost before = inner@;
            append_bytes(&mut inner, rule.as_slice());
            assert(before + rule@ =~= start + (descriptions_wire(
                texts(self.descriptions@),
                i as nat,
            ) + rule@));
            i += 1;
        }
        append_opt_u32(&mut inner, AVP_FLOW_STATUS, opt_status_code(&self.status));
        let usage = match &self.usage {
            Some(u) => Some(u.code()),
            None => None,
        };
        append_opt_u32(&mut inner, AVP_FLOW_USAGE, usage);
        encode_octet(AVP_MEDIA_SUB_COMPONENT, VENDOR_3GPP, inner.as_slice())
    }
}

impl MediaComponent {
    /// The Media-Component-Description AVP of the component.
    pub fn encode(&self) -> (r: Vec<u8>)
        ensures
            r@ == component_wire(self@),
    {
        let mut inner = encode_u32(AVP_MEDIA_COMPONENT_NUMBER, VENDOR_3GPP, self.number);
        let ghost start = inner@;
        let mut i: usize = 0;
        assert(start + flows_wire(self@.flows, 0) =~= start);
        while i < self.flows.len()
            invariant
                i <= self.flows@.len(),
                inner@ == start + flows_wire(flows_text(self.flows@), i as nat),
            decreases self.flows@.len() - i,
        {
            let flow = self.flows[i].encode();
            let ghost before = inner@;
            append_bytes(&mut inner, flow.as_slice());
            assert(before + flow@ =~= start + (flows_wire(flows_text(self.flows@), i as nat)
                + flow@));
            i += 1;
        }
        append_bytes(
            &mut inner,
            encode_u32(AVP_MEDIA_TYPE, VENDOR_3GPP, self.media_type.code()).as_slice(),
        );
        append_opt_u32(&mut inner, AVP_MAX_REQUESTED_BANDWIDTH_UL, self.max_bandwidth_ul);
        append_opt_u32(&mut inner, AVP_MAX_REQUESTED_BANDWIDTH_DL, self.max_bandwidth_dl);
        append_opt_u32(&mut inner, AVP_FLOW_STATUS, opt_status_code(&self.flow_status));
        match &self.codec_data {
            Some(data) => {
                append_bytes(
                    &mut inner,
                    encode_octet(AVP_CODEC_DATA, VENDOR_3GPP, data.as_slice()).as_slice(),
                );
            },
            None => {
                assert(inner@ + Seq::<u8>::empty() =~= inner@);
            },
        }
        encode_octet(AVP_MEDIA_COMPONENT_DESCRIPTION, VENDOR_3GPP, inner.as_slice())
    }
}

/// A Framed-IPv6-Prefix: raw bytes as they are, an IPv6 literal as a host
/// prefix (RFC 3162: reserved, prefix length, address).
pub open spec fn ipv6_prefix(p: PyText) -> Result<Seq<u8>, ErrorText> {
    match as_bytes(p) {
        Ok(raw) => Ok(raw),
        Err(_) => match p {
            PyText::Text(text) => match ip_of(text) {
                Some(IpAddr::V6(value)) => Ok(seq![0u8, 128u8] + be_bytes(value as nat, 16)),
                _ => Err(
                    value_error("framed_ipv6 is not a valid IPv6 address: "@ + text),
                ),
            },
            _ => Err(type_error("framed_ipv6 must be str or bytes"@)),
        },
    }
}

/// Reads a Framed-IPv6-Prefix from a script value.
pub fn extract_ipv6_prefix(obj: &PyValue) -> (r: Result<Vec<u8>, ScriptError>)
    ensures
        match r {
            Ok(b) => ipv6_prefix(obj@) == Ok::<Seq<u8>, ErrorText>(b@),
            Err(e) => ipv6_prefix(obj@) == Err::<Seq<u8>, ErrorText>(e@),
        },
{
    match obj.as_bytes() {
        Ok(raw) => {
            return Ok(raw);
        },
        Err(_) => {},
    }
    let text = match obj {
        PyValue::Text(text) => text,
        _ => {
            return Err(ScriptError::type_("framed_ipv6 must be str or bytes".to_owned()));
        },
    };
    match IpAddr::parse(text) {
        Some(IpAddr::V6(value)) => {
            let mut bytes: Vec<u8> = vec![0u8, 128u8];
            append_bytes(&mut bytes, to_be_wide(value, 16).as_slice());
            assert(bytes@ =~= seq![0u8, 128u8] + be_bytes(value as nat, 16));
            Ok(bytes)
        },
        _ => Err(
            ScriptError::value(
                "framed_ipv6 is not a valid IPv6 address: ".to_owned().concat(text),
            ),
        ),
    }
}

/// The Subscription-Id-Type that an alias means, without regard to case.
pub open spec fn subscription_alias(alias: Seq<char>) -> Option<u32> {
    let name = lower(alias);
    if name == "e164"@ || name == "e.164"@ {
        Some(0)
    } else if name == "imsi"@ {
        Some(1)
    } else if name == "sip_uri"@ || name == "sip-uri"@ || name == "sip"@ {
        Some(2)
    } else if name == "nai"@ {
        Some(3)
    } else if name == "private"@ {
        Some(4)
    } else {
        None
    }
}

/// A subscription identity: a pair of its data and its type, which is a number
/// or an alias.
pub open spec fn subscription_of(p: PyText) -> Result<(Seq<char>, u32), ErrorText> {
    match p {
        PyText::Tuple(v) => if v.len() == 2 && v[0] is Text {
            match as_u32(v[1]) {
                Ok(n) => Ok((v[0]->Text_0, n as u32)),
                Err(_) => match v[1] {
                    PyText::Text(alias) => match subscription_alias(alias) {
                        Some(n) => Ok((v[0]->Text_0, n)),
                        None => Err(
                            value_error(
                                "unknown subscription_id type alias "@ + debug_quoted(lower(alias)),
                            ),
                        ),
                    },
                    _ => Err(type_error("subscription_id[1] must be int or str alias"@)),
                },
            }
        } else {
            Err(type_error("subscription_id must be (data: str, type: int|str)"@))
        },
        _ => Err(type_error("subscription_id must be (data: str, type: int|str)"@)),
    }
}

/// Reads a subscription identity from a script value.
pub fn extract_subscription_id(obj: &PyValue) -> (r: Result<(String, u32), ScriptError>)
    ensures
        match r {
            Ok(s) => subscription_of(obj@) == Ok::<(Seq<char>, u32), ErrorText>((s.0@, s.1)),
            Err(e) => subscription_of(obj@) == Err::<(Seq<char>, u32), ErrorText>(e@),
        },
{
    let pair = match obj {
        PyValue::Tuple(v) => v,
        _ => {
            return Err(
                ScriptError::type_(
                    "subscription_id must be (data: str, type: int|str)".to_owned(),
                ),
            );
        },
    };
    proof {
        lemma_list_text(*pair);
    }
    if pair.len() != 2 {
        return Err(
            ScriptError::type_("subscription_id must be (data: str, type: int|str)".to_owned()),
        );
    }
    assert(values_text(pair@)[0] == pair@[0]@);
    assert(values_text(pair@)[1] == pair@[1]@);
    let data = match &pair[0] {
        PyValue::Text(data) => data.clone(),
        _ => {
            return Err(
                ScriptError::type_(
                    "subscription_id must be (data: str, type: int|str)".to_owned(),
                ),
            );
        },
    };
    match pair[1].as_u32() {
        Ok(n) => {
            return Ok((data, n));
        },
        Err(_) => {},
    }
    let alias = match &pair[1] {
        PyValue::Text(alias) => to_lower(alias),
        _ => {
            return Err(
                ScriptError::type_("subscription_id[1] must be int or str alias".to_owned()),
            );
        },
    };
    if same_text(&alias, "e164") || same_text(&alias, "e.164") {
        Ok((data, 0))
    } else if same_text(&alias, "imsi") {
        Ok((data, 1))
    } else if same_text(&alias, "sip_uri") || same_text(&alias, "sip-uri") || same_text(
        &alias,
        "sip",
    ) {
        Ok((data, 2))
    } else if same_text(&alias, "nai") {
        Ok((data, 3))
    } else if same_text(&alias, "private") {
        Ok((data, 4))
    } else {
        Err(
            ScriptError::value(
                "unknown subscription_id type alias ".to_owned().concat(&quote_debug(&alias)),
            ),
        )
    }
}

/// What a connected peer contributes to a request: the identifiers of the next
/// message, a fresh session, and the configured identities.
pub struct PeerContext {
    pub hop_by_hop: u32,
    pub end_to_end: u32,
    pub new_session_id: String,
    pub origin_host: String,
    pub origin_realm: String,
    pub destination_realm: String,
    pub destination_host: Option<String>,
}

/// The arguments of an AA-Request.
pub struct AarArgs {
    pub session_id: Option<String>,
    pub framed_ip: Option<String>,
    pub framed_ipv6: Option<PyValue>,
    pub media_components: Option<PyValue>,
    pub af_application_id: String,
    pub subscription_id: Option<PyValue>,
}

/// The session of an AA-Request: a given one is modified, else a fresh one.
pub open spec fn aar_session(args: AarArgs, peer: PeerContext) -> Seq<char> {
    match args.session_id {
        Some(id) => id@,
        None => peer.new_session_id@,
    }
}

pub open spec fn aar_components(args: AarArgs) -> Result<Seq<ComponentText>, ErrorText> {
    match args.media_components {
        Some(obj) => media_components(obj@),
        None => Ok(Seq::empty()),
    }
}

/// The Framed-IP-Address AVP of an IPv4 literal.
pub open spec fn framed_ip_wire(ip: Option<Seq<char>>) -> Result<Seq<u8>, ErrorText> {
    match ip {
        None => Ok(Seq::empty()),
        Some(text) => match ip_of(text) {
            Some(IpAddr::V4(value)) => Ok(
                avp_of(AVP_FRAMED_IP_ADDRESS, 0, be_bytes(value as nat, 4)),
            ),
            _ => Err(value_error("framed_ip is not a valid IPv4 address: "@ + text)),
        },
    }
}

pub open spec fn framed_ipv6_wire(ip: Option<PyValue>) -> Result<Seq<u8>, ErrorText> {
    match ip {
        None => Ok(Seq::empty()),
        Some(obj) => match ipv6_prefix(obj@) {
            Ok(bytes) => Ok(avp_of(AVP_FRAMED_IPV6_PREFIX, 0, bytes)),
            Err(e) => Err(e),
        },
    }
}

pub open spec fn subscription_wire(id: Option<PyValue>) -> Result<Seq<u8>, ErrorText> {
    match id {
        None => Ok(Seq::empty()),
        Some(obj) => match subscription_of(obj@) {
            Ok((data, type_num)) => Ok(
                avp_of(
                    AVP_SUBSCRIPTION_ID,
                    0,
                    avp_of(AVP_SUBSCRIPTION_ID_TYPE, 0, be_bytes(type_num as nat, 4)) + avp_of(
                        AVP_SUBSCRIPTION_ID_DATA,
                        0,
                        encode_utf8(data),
                    ),
                ),
            ),
            Err(e) => Err(e),
        },
    }
}

/// The AVPs that every AA-Request starts with.
pub open spec fn aar_head(session: Seq<char>, peer: PeerContext, af_application_id: Seq<char>) -> Seq<u8> {
    avp_of(AVP_SESSION_ID, 0, encode_utf8(session)) + avp_of(
        AVP_AUTH_APPLICATION_ID,
        0,
        be_bytes(RX_APP_ID as nat, 4),
    ) + avp_of(AVP_ORIGIN_HOST, 0, encode_utf8(peer.origin_host@)) + avp_of(
        AVP_ORIGIN_REALM,
        0,
        encode_utf8(peer.origin_realm@),
    ) + avp_of(AVP_DESTINATION_REALM, 0, encode_utf8(peer.destination_realm@)) + avp_of(
        AVP_AF_APPLICATION_IDENTIFIER,
        VENDOR_3GPP,
        encode_utf8(af_application_id),
    )
}

/// An AA-Request on the wire, or what is wrong with its arguments. The errors
/// come in this order: components, IPv6 prefix, subscription, IPv4 address.
pub open spec fn aar_wire(args: AarArgs, peer: PeerContext) -> Result<Seq<u8>, ErrorText> {
    match aar_components(args) {
        Err(e) => Err(e),
        Ok(components) => match framed_ipv6_wire(args.framed_ipv6) {
            Err(e) => Err(e),
            Ok(ipv6) => match subscription_wire(args.subscription_id) {
                Err(e) => Err(e),
                Ok(subscription) => match framed_ip_wire(opt_text(args.framed_ip)) {
                    Err(e) => Err(e),
                    Ok(ipv4) => Ok(
                        message_frame(
                            0xC0,
                            CMD_AA,
                            RX_APP_ID,
                            peer.hop_by_hop,
                            peer.end_to_end,
                            aar_head(aar_session(args, peer), peer, args.af_application_id@)
                                + components_wire(components, components.len()) + ipv4 + ipv6
                                + subscription,
                        ),
                    ),
                },
            },
        },
    }
}

/// A request that is ready to go to a peer.
pub struct WireRequest {
    pub wire: Vec<u8>,
    pub session_id: String,
}

fn encode_components(components: &Vec<MediaComponent>) -> (r: Vec<u8>)
    ensures
        r@ == components_wire(components_text(components@), components@.len()),
{
    let mut out: Vec<u8> = Vec::new();
    let mut i: usize = 0;
    while i < components.len()
        invariant
            i <= components@.len(),
            out@ == components_wire(components_text(components@), i as nat),
        decreases components@.len() - i,
    {
        let component = components[i].encode();
        append_bytes(&mut out, component.as_slice());
        i += 1;
    }
    out
}

fn encode_aar_head(session: &str, peer: &PeerContext, af_application_id: &str) -> (r: Vec<u8>)
    ensures
        r@ == aar_head(session@, *peer, af_application_id@),
{
    let mut out = encode_text(AVP_SESSION_ID, 0, session);
    append_bytes(&mut out, encode_u32(AVP_AUTH_APPLICATION_ID, 0, RX_APP_ID).as_slice());
    append_bytes(&mut out, encode_text(AVP_ORIGIN_HOST, 0, &peer.origin_host).as_slice());
    append_bytes(&mut out, encode_text(AVP_ORIGIN_REALM, 0, &peer.origin_realm).as_slice());
    append_bytes(
        &mut out,
        encode_text(AVP_DESTINATION_REALM, 0, &peer.destination_realm).as_slice(),
    );
    append_bytes(
        &mut out,
        encode_text(AVP_AF_APPLICATION_IDENTIFIER, VENDOR_3GPP, af_application_id).as_slice(),
    );
    out
}

/// Builds the AA-Request of a media session; `None` where no peer is
/// connected, whatever the arguments are.
pub fn rx_aar(args: &AarArgs, peer: Option<&PeerContext>) -> (r: Result<
    Option<WireRequest>,
    ScriptError,
>)
    ensures
        match peer {
            None => r matches Ok(None),
            Some(p) => match r {
                Ok(Some(request)) => aar_wire(*args, *p) == Ok::<Seq<u8>, ErrorText>(
                    request.wire@,
                ) && request.session_id@ == aar_session(*args, *p),
                Ok(None) => false,
                Err(e) => aar_wire(*args, *p) == Err::<Seq<u8>, ErrorText>(e@),
            },
        },
{
    let peer = match peer {
        Some(peer) => peer,
        None => {
            return Ok(None);
        },
    };
    let components = match &args.media_components {
        Some(obj) => match parse_media_components(obj) {
            Ok(c) => c,
            Err(e) => {
                return Err(e);
            },
        },
        None => Vec::new(),
    };
    assert(aar_components(*args) is Ok && components_text(components@) =~= aar_components(
        *args,
    )->Ok_0);
    let ipv6 = match &args.framed_ipv6 {
        Some(obj) => match extract_ipv6_prefix(obj) {
            Ok(bytes) => encode_octet(AVP_FRAMED_IPV6_PREFIX, 0, bytes.as_slice()),
            Err(e) => {
                return Err(e);
            },
        },
        None => Vec::new(),
    };
    assert(framed_ipv6_wire(args.framed_ipv6) is Ok && ipv6@ =~= framed_ipv6_wire(
        args.framed_ipv6,
    )->Ok_0);
    let subscription = match &args.subscription_id {
        Some(obj) => match extract_subscription_id(obj) {
            Ok((data, type_num)) => {
                let mut inner = encode_u32(AVP_SUBSCRIPTION_ID_TYPE, 0, type_num);
                append_bytes(
                    &mut inner,
                    encode_text(AVP_SUBSCRIPTION_ID_DATA, 0, &data).as_slice(),
                );
                encode_octet(AVP_SUBSCRIPTION_ID, 0, inner.as_slice())
            },
            Err(e) => {
                return Err(e);
            },
        },
        None => Vec::new(),
    };
    assert(subscription_wire(args.subscription_id) is Ok && subscription@ =~= subscription_wire(
        args.subscription_id,
    )->Ok_0);
    let ipv4 = match &args.framed_ip {
        Some(text) => match IpAddr::parse(text) {
            Some(IpAddr::V4(value)) => encode_octet(
                AVP_FRAMED_IP_ADDRESS,
                0,
                to_be(value as u64, 4).as_slice(),
            ),
            _ => {
                return Err(
                    ScriptError::value(
                        "framed_ip is not a valid IPv4 address: ".to_owned().concat(text),
                    ),
                );
            },
        },
        None => Vec::new(),
    };
    assert(framed_ip_wire(opt_text(args.framed_ip)) is Ok && ipv4@ =~= framed_ip_wire(
        opt_text(args.framed_ip),
    )->Ok_0);
    let session = match &args.session_id {
        Some(id) => id.clone(),
        None => peer.new_session_id.clone(),
    };
    let mut payload = encode_aar_head(&session, peer, &args.af_application_id);
    append_bytes(&mut payload, encode_components(&components).as_slice());
    append_bytes(&mut payload, ipv4.as_slice());
    append_bytes(&mut payload, ipv6.as_slice());
    append_bytes(&mut payload, subscription.as_slice());
    let wire = encode_message(
        0xC0,
        CMD_AA,
        RX_APP_ID,
        peer.hop_by_hop,
        peer.end_to_end,
        payload.as_slice(),
    );
    Ok(Some(WireRequest { wire, session_id: session }))
}

} // verus!
