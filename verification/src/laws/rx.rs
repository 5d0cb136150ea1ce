//! Laws of the media that an Rx session is authorised for.

use crate::bytes::{be_bytes, lemma_be_bytes_len};
use crate::diameter::codec::{
    avp_of, avp_wire, avps_wire, find_avp, grouped_avp, message_wire, raw_avp, text_avp, u32_of,
    AvpText, DataText, MsgText,
};
use crate::diameter::decode::{
    all_readable, avps_of, is_group, lemma_all_readable, lemma_avps_read_back, message_of,
    readable, wire_reads_back,
};
use crate::diameter::dictionary::DictText;
use crate::diameter::rx::{
    aar_components, aar_head, aar_session, aar_wire, framed_ip_wire, framed_ipv6_wire, ipv6_prefix,
    subscription_of, subscription_wire,
    component_of, component_rest, component_wire, components_of, components_text, components_wire,
    descriptions_wire, flow_label, flow_of, flow_wire, flows_of, flows_text, flows_wire, media_type_code, opt_u32_avp,
    parse_media_components, rx_aar, status_number, usage_number, AarArgs, ComponentText, FlowStatus,
    FlowText, FlowUsage, MediaComponent, MediaFlow, MediaType, PeerContext, WireRequest,
};
use crate::error::ErrorText;
use crate::laws::diameter::{
    first_of_kind, lemma_find_is_first, lemma_reads_back, lemma_u32_reads_back,
};
use crate::net::{ip_of, IpAddr};
use crate::pyvalue::{as_bytes, as_texts, entry, PyText, PyValue};
use crate::text::{lower, opt_text, texts};
use vstd::prelude::*;
use vstd::string::*;
use vstd::utf8::encode_utf8;

verus! {

/// Whether a script's value stands for a number: an integer for itself, a truth
/// value for one or nought.
pub open spec fn stands_for(value: PyText, n: u32) -> bool {
    value == PyText::Int(n as int) || (value == PyText::Bool(true) && n == 1) || (value
        == PyText::Bool(false) && n == 0)
}

/// Whether an optional number is the one under a key of a dict, and there is
/// none exactly where the dict has no such key.
pub open spec fn number_under(d: Seq<(Seq<char>, PyText)>, key: Seq<char>, n: Option<u32>) -> bool {
    match n {
        Some(n) => entry(d, key) matches Some(value) && stands_for(value, n),
        None => entry(d, key) is None,
    }
}

/// Whether a text names a status, in any case.
pub open spec fn names_status(name: Seq<char>, status: FlowStatus) -> bool {
    match status {
        FlowStatus::Enabled => lower(name) == "enabled"@,
        FlowStatus::Disabled => lower(name) == "disabled"@,
        FlowStatus::Removed => lower(name) == "removed"@,
        FlowStatus::EnabledUplink => lower(name) == "enabled-up"@ || lower(name)
            == "enabled_uplink"@ || lower(name) == "enabled-uplink"@,
        FlowStatus::EnabledDownlink => lower(name) == "enabled-down"@ || lower(name)
            == "enabled_downlink"@ || lower(name) == "enabled-downlink"@,
    }
}

/// Whether an optional status is the one named under a key of a dict.
pub open spec fn status_under(
    d: Seq<(Seq<char>, PyText)>,
    key: Seq<char>,
    status: Option<FlowStatus>,
) -> bool {
    match status {
        Some(status) => entry(d, key) matches Some(PyText::Text(name)) && names_status(name, status),
        None => entry(d, key) is None,
    }
}

/// Whether a text names a usage, in any case.
pub open spec fn names_usage(name: Seq<char>, usage: FlowUsage) -> bool {
    match usage {
        FlowUsage::NoInformation => lower(name) == "no_information"@ || lower(name)
            == "no-information"@ || lower(name) == "none"@,
        FlowUsage::Rtcp => lower(name) == "rtcp"@,
        FlowUsage::AfSignalling => lower(name) == "af_signalling"@ || lower(name)
            == "af-signalling"@ || lower(name) == "signalling"@,
    }
}

/// Whether an optional usage is the one named under a key of a dict.
pub open spec fn usage_under(
    d: Seq<(Seq<char>, PyText)>,
    key: Seq<char>,
    usage: Option<FlowUsage>,
) -> bool {
    match usage {
        Some(usage) => entry(d, key) matches Some(PyText::Text(name)) && names_usage(name, usage),
        None => entry(d, key) is None,
    }
}

/// The text that names a kind of media.
pub open spec fn media_name(kind: MediaType) -> Seq<char> {
    match kind {
        MediaType::Audio => "audio"@,
        MediaType::Video => "video"@,
        MediaType::Data => "data"@,
        MediaType::Application => "application"@,
        MediaType::Control => "control"@,
        MediaType::Text => "text"@,
        MediaType::Message => "message"@,
        MediaType::Other => "other"@,
    }
}

/// Whether a flow holds what a script's dict says, each part under its own key.
pub open spec fn flow_as_written(d: Seq<(Seq<char>, PyText)>, flow: MediaFlow) -> bool {
    &&& number_under(d, "number"@, Some(flow.flow_number))
    &&& match entry(d, "descriptions"@) {
        Some(value) => as_texts(value) matches Ok(descriptions) && descriptions == texts(
            flow.descriptions@,
        ),
        None => flow.descriptions@.len() == 0,
    }
    &&& status_under(d, "status"@, flow.status)
    &&& usage_under(d, "usage"@, flow.usage)
}

/// Whether a component's flows are those that a script lists, in its order.
pub open spec fn flows_as_written(d: Seq<(Seq<char>, PyText)>, flows: Seq<MediaFlow>) -> bool {
    match entry(d, "flows"@) {
        Some(PyText::List(list)) => {
            &&& flows.len() == list.len()
            &&& forall|j: int|
                0 <= j < list.len() ==> (#[trigger] list[j] matches PyText::Dict(f)
                    && flow_as_written(f, flows[j]))
        },
        Some(_) => false,
        None => flows.len() == 0,
    }
}

/// Whether a component holds what a script's dict says, each part under its own
/// key.
pub open spec fn component_as_written(d: Seq<(Seq<char>, PyText)>, c: MediaComponent) -> bool {
    &&& number_under(d, "number"@, Some(c.number))
    &&& entry(d, "media_type"@) matches Some(PyText::Text(name)) && lower(name) == media_name(
        c.media_type,
    )
    &&& number_under(d, "max_bandwidth_ul"@, c.max_bandwidth_ul)
    &&& number_under(d, "max_bandwidth_dl"@, c.max_bandwidth_dl)
    &&& status_under(d, "flow_status"@, c.flow_status)
    &&& match c.codec_data {
        Some(data) => entry(d, "codec_data"@) matches Some(value) && as_bytes(value) matches Ok(octets)
            && octets == data@,
        None => entry(d, "codec_data"@) is None,
    }
    &&& flows_as_written(d, c.flows@)
}

proof fn lemma_flows_in_order(v: Seq<PyText>, idx: int, n: nat)
    requires
        n <= v.len(),
        flows_of(v, idx, n) is Ok,
    ensures
        flows_of(v, idx, n)->Ok_0.len() == n,
        forall|j: int|
            0 <= j < n ==> #[trigger] flow_of(v[j], flow_label(idx, j)) == Ok::<
                FlowText,
                ErrorText,
            >(flows_of(v, idx, n)->Ok_0[j]),
    decreases n,
{
    if n > 0 {
        lemma_flows_in_order(v, idx, (n - 1) as nat);
    }
}

proof fn lemma_components_in_order(v: Seq<PyText>, n: nat)
    requires
        n <= v.len(),
        components_of(v, n) is Ok,
    ensures
        components_of(v, n)->Ok_0.len() == n,
        forall|i: int|
            0 <= i < n ==> #[trigger] component_of(v[i], i) == Ok::<
                ComponentText,
                ErrorText,
            >(components_of(v, n)->Ok_0[i]),
    decreases n,
{
    if n > 0 {
        lemma_components_in_order(v, (n - 1) as nat);
    }
}

proof fn lemma_flow_as_written(p: PyText, label: Seq<char>, flow: MediaFlow)
    requires
        flow_of(p, label) == Ok::<FlowText, ErrorText>(flow@),
    ensures
        p matches PyText::Dict(d) && flow_as_written(d, flow),
{
    let d = p->Dict_0;
    if entry(d, "descriptions"@) is None {
        assert(texts(flow.descriptions@).len() == 0);
    }
}

/// The media components that a script lists are taken in its order, and each
/// holds what its dict says, every part under its own key: the number, the kind
/// of media, the uplink bandwidth under `max_bandwidth_ul`, the downlink
/// bandwidth under `max_bandwidth_dl`, the status, the codec data and the flows.
pub proof fn components_hold_what_the_script_wrote(
    obj: PyValue,
    components: Vec<MediaComponent>,
    listed: Seq<PyText>,
)
    requires
        call_ensures(parse_media_components, (&obj,), Ok(components)),
        obj@ == PyText::List(listed),
    ensures
        components@.len() == listed.len(),
        forall|i: int|
            0 <= i < listed.len() ==> (#[trigger] listed[i] matches PyText::Dict(d)
                && component_as_written(d, components@[i])),
{
    let all = components_text(components@);
    lemma_components_in_order(listed, listed.len());
    assert(all.len() == listed.len());
    assert forall|i: int| 0 <= i < listed.len() implies (#[trigger] listed[i] matches PyText::Dict(d)
        && component_as_written(d, components@[i])) by {
        let c = components@[i];
        assert(component_of(listed[i], i) == Ok::<ComponentText, ErrorText>(all[i]));
        assert(all[i] == c@);
        let d = listed[i]->Dict_0;
        assert(component_rest(d, i, c.number, c.media_type) == Ok::<
            ComponentText,
            ErrorText,
        >(c@));
        match entry(d, "flows"@) {
            Some(PyText::List(list)) => {
                lemma_flows_in_order(list, i, list.len());
                let flows = flows_of(list, i, list.len())->Ok_0;
                assert(flows == flows_text(c.flows@));
                assert(flows.len() == c.flows@.len());
                assert forall|j: int| 0 <= j < list.len() implies (#[trigger] list[j] matches PyText::Dict(
                    f,
                ) && flow_as_written(f, c.flows@[j])) by {
                    let label = flow_label(i, j);
                    assert(flow_of(list[j], label) == Ok::<FlowText, ErrorText>(flows[j]));
                    assert(flows[j] == c.flows@[j]@);
                    lemma_flow_as_written(list[j], label, c.flows@[j]);
                }
            },
            Some(_) => {},
            None => {
                assert(flows_text(c.flows@).len() == 0);
            },
        }
    }
}

proof fn lemma_wire_prefix(a: Seq<AvpText>, b: Seq<AvpText>, n: nat)
    requires
        n <= a.len(),
        n <= b.len(),
        forall|i: int| 0 <= i < n ==> a[i] == b[i],
    ensures
        avps_wire(a, n) == avps_wire(b, n),
    decreases n,
{
    if n > 0 {
        lemma_wire_prefix(a, b, (n - 1) as nat);
    }
}

/// The octets of two lists are those of one and then of the other.
pub proof fn lemma_wire_concat(a: Seq<AvpText>, b: Seq<AvpText>)
    ensures
        avps_wire(a + b, (a + b).len()) == avps_wire(a, a.len()) + avps_wire(b, b.len()),
    decreases b.len(),
{
    if b.len() == 0 {
        assert(a + b =~= a);
        assert(avps_wire(a, a.len()) + avps_wire(b, b.len()) =~= avps_wire(a, a.len()));
    } else {
        let front = a + b.drop_last();
        lemma_wire_concat(a, b.drop_last());
        lemma_wire_prefix(a + b, front, front.len());
        lemma_wire_prefix(b, b.drop_last(), b.drop_last().len());
        assert((a + b)[(a + b).len() - 1] == b.last());
        assert(avps_wire(a + b, (a + b).len()) =~= avps_wire(a, a.len()) + avps_wire(b, b.len()));
    }
}

/// The octets of a list of one AVP are those of the AVP.
pub proof fn lemma_wire_one(a: AvpText)
    ensures
        avps_wire(seq![a], 1) == avp_wire(a),
{
    reveal_with_fuel(avps_wire, 2);
    assert(Seq::<u8>::empty() + avp_wire(a) =~= avp_wire(a));
}

/// A lookup in two lists looks in one and then in the other.
pub proof fn lemma_find_concat(a: Seq<AvpText>, b: Seq<AvpText>, code: u32, vendor: u32)
    ensures
        find_avp(a + b, code, vendor) == match find_avp(a, code, vendor) {
            Some(found) => Some(found),
            None => find_avp(b, code, vendor),
        },
    decreases a.len(),
{
    if a.len() == 0 {
        assert(a + b =~= b);
    } else {
        assert((a + b).skip(1) =~= a.skip(1) + b);
        lemma_find_concat(a.skip(1), b, code, vendor);
    }
}

/// A lookup in a list of one AVP finds it where it is of that kind.
pub proof fn lemma_find_one(a: AvpText, code: u32, vendor: u32)
    ensures
        find_avp(seq![a], code, vendor) == if a.code == code && a.vendor == vendor {
            Some(a)
        } else {
            None
        },
{
    assert(seq![a].skip(1) =~= Seq::<AvpText>::empty());
    reveal_with_fuel(find_avp, 2);
}

proof fn lemma_find_elsewhere(v: Seq<AvpText>, code: u32, vendor: u32)
    requires
        forall|i: int| 0 <= i < v.len() ==> (#[trigger] v[i]).code != code,
    ensures
        find_avp(v, code, vendor) is None,
{
    lemma_find_is_first(v, code, vendor);
    if find_avp(v, code, vendor) is Some {
        let i = choose|i: int| #[trigger] first_of_kind(v, i, code, vendor);
        assert(v[i].code == code);
    }
}

/// An optional number as the AVPs that carry it.
spec fn opt_leaf(code: u32, value: Option<u32>) -> Seq<AvpText> {
    match value {
        Some(n) => seq![raw_avp(code, 10415, be_bytes(n as nat, 4))],
        None => Seq::empty(),
    }
}

/// Optional octets as the AVPs that carry them.
spec fn opt_octets_leaf(code: u32, value: Option<Seq<u8>>) -> Seq<AvpText> {
    match value {
        Some(b) => seq![raw_avp(code, 10415, b)],
        None => Seq::empty(),
    }
}

spec fn description_avps(v: Seq<Seq<char>>) -> Seq<AvpText> {
    Seq::new(v.len(), |i: int| raw_avp(507, 10415, encode_utf8(v[i])))
}

spec fn flow_children(f: FlowText) -> Seq<AvpText> {
    seq![raw_avp(509, 10415, be_bytes(f.flow_number as nat, 4))] + description_avps(f.descriptions)
        + opt_leaf(511, status_number(f.status)) + opt_leaf(512, usage_number(f.usage))
}

spec fn flow_avp(f: FlowText) -> AvpText {
    grouped_avp(519, 10415, flow_children(f))
}

spec fn flow_avps(v: Seq<FlowText>) -> Seq<AvpText> {
    Seq::new(v.len(), |i: int| flow_avp(v[i]))
}

spec fn component_head(c: ComponentText) -> Seq<AvpText> {
    seq![raw_avp(518, 10415, be_bytes(c.number as nat, 4))] + flow_avps(c.flows)
}

spec fn component_tail(c: ComponentText) -> Seq<AvpText> {
    seq![
        raw_avp(
            520,
            10415,
            be_bytes(media_type_code(c.media_type) as nat, 4),
        ),
    ] + opt_leaf(516, c.max_bandwidth_ul) + opt_leaf(515, c.max_bandwidth_dl) + opt_leaf(
        511,
        status_number(c.flow_status),
    ) + opt_octets_leaf(524, c.codec_data)
}

spec fn component_avp(c: ComponentText) -> AvpText {
    grouped_avp(517, 10415, component_head(c) + component_tail(c))
}

spec fn component_avps(v: Seq<ComponentText>) -> Seq<AvpText> {
    Seq::new(v.len(), |i: int| component_avp(v[i]))
}

proof fn lemma_leaf_wire(code: u32, value: Option<u32>)
    ensures
        avps_wire(opt_leaf(code, value), opt_leaf(code, value).len()) == opt_u32_avp(code, value),
{
    if let Some(n) = value {
        lemma_wire_one(raw_avp(code, 10415, be_bytes(n as nat, 4)));
    }
}

proof fn lemma_descriptions_wire(v: Seq<Seq<char>>, n: nat)
    requires
        n <= v.len(),
    ensures
        avps_wire(description_avps(v), n) == descriptions_wire(v, n),
    decreases n,
{
    if n > 0 {
        lemma_descriptions_wire(v, (n - 1) as nat);
        let last = raw_avp(507, 10415, encode_utf8(v[n - 1]));
        assert(description_avps(v)[n - 1] == last);
        assert(avp_wire(last) == avp_of(507, 10415, encode_utf8(v[n - 1])));
    }
}

proof fn lemma_flow_wire(f: FlowText)
    ensures
        avp_wire(flow_avp(f)) == flow_wire(f),
{
    let number = raw_avp(509, 10415, be_bytes(f.flow_number as nat, 4));
    let one = seq![number] + description_avps(f.descriptions);
    let two = one + opt_leaf(511, status_number(f.status));
    lemma_wire_one(number);
    lemma_descriptions_wire(f.descriptions, f.descriptions.len());
    lemma_wire_concat(seq![number], description_avps(f.descriptions));
    lemma_leaf_wire(511, status_number(f.status));
    lemma_wire_concat(one, opt_leaf(511, status_number(f.status)));
    lemma_leaf_wire(512, usage_number(f.usage));
    lemma_wire_concat(two, opt_leaf(512, usage_number(f.usage)));
}

proof fn lemma_flows_wire(v: Seq<FlowText>, n: nat)
    requires
        n <= v.len(),
    ensures
        avps_wire(flow_avps(v), n) == flows_wire(v, n),
    decreases n,
{
    if n > 0 {
        lemma_flows_wire(v, (n - 1) as nat);
        lemma_flow_wire(v[n - 1]);
        assert(flow_avps(v)[n - 1] == flow_avp(v[n - 1]));
    }
}

/// The bytes of what follows the flows of a component.
spec fn tail_wire(c: ComponentText) -> Seq<u8> {
    avp_of(520, 10415, be_bytes(media_type_code(c.media_type) as nat, 4)) + opt_u32_avp(
        516,
        c.max_bandwidth_ul,
    ) + opt_u32_avp(515, c.max_bandwidth_dl) + opt_u32_avp(511, status_number(c.flow_status))
        + match c.codec_data {
        Some(data) => avp_of(524, 10415, data),
        None => Seq::empty(),
    }
}

proof fn lemma_tail_wire(c: ComponentText)
    ensures
        avps_wire(component_tail(c), component_tail(c).len()) == tail_wire(c),
{
    let kind = raw_avp(520, 10415, be_bytes(media_type_code(c.media_type) as nat, 4));
    let ul = opt_leaf(516, c.max_bandwidth_ul);
    let dl = opt_leaf(515, c.max_bandwidth_dl);
    let status = opt_leaf(511, status_number(c.flow_status));
    let codec = opt_octets_leaf(524, c.codec_data);
    lemma_wire_one(kind);
    lemma_leaf_wire(516, c.max_bandwidth_ul);
    lemma_leaf_wire(515, c.max_bandwidth_dl);
    lemma_leaf_wire(511, status_number(c.flow_status));
    if let Some(data) = c.codec_data {
        lemma_wire_one(raw_avp(524, 10415, data));
    }
    lemma_wire_concat(seq![kind], ul);
    lemma_wire_concat(seq![kind] + ul, dl);
    lemma_wire_concat(seq![kind] + ul + dl, status);
    lemma_wire_concat(seq![kind] + ul + dl + status, codec);
}

proof fn lemma_head_wire(c: ComponentText)
    ensures
        avps_wire(component_head(c), component_head(c).len()) == avp_of(
            518,
            10415,
            be_bytes(c.number as nat, 4),
        ) + flows_wire(c.flows, c.flows.len()),
{
    let number = raw_avp(518, 10415, be_bytes(c.number as nat, 4));
    lemma_wire_one(number);
    lemma_flows_wire(c.flows, c.flows.len());
    lemma_wire_concat(seq![number], flow_avps(c.flows));
}

proof fn lemma_seven_joined(
    a: Seq<u8>,
    b: Seq<u8>,
    c: Seq<u8>,
    d: Seq<u8>,
    e: Seq<u8>,
    f: Seq<u8>,
    g: Seq<u8>,
)
    ensures
        (a + b) + (c + d + e + f + g) == a + b + c + d + e + f + g,
{
    assert((a + b) + (c + d + e + f + g) =~= a + b + c + d + e + f + g);
}

proof fn lemma_component_wire(c: ComponentText)
    ensures
        avp_wire(component_avp(c)) == component_wire(c),
{
    lemma_head_wire(c);
    lemma_tail_wire(c);
    lemma_wire_concat(component_head(c), component_tail(c));
    lemma_seven_joined(
        avp_of(518, 10415, be_bytes(c.number as nat, 4)),
        flows_wire(c.flows, c.flows.len()),
        avp_of(520, 10415, be_bytes(media_type_code(c.media_type) as nat, 4)),
        opt_u32_avp(516, c.max_bandwidth_ul),
        opt_u32_avp(515, c.max_bandwidth_dl),
        opt_u32_avp(511, status_number(c.flow_status)),
        match c.codec_data {
            Some(data) => avp_of(524, 10415, data),
            None => Seq::empty(),
        },
    );
}

proof fn lemma_components_wire(v: Seq<ComponentText>, n: nat)
    requires
        n <= v.len(),
    ensures
        avps_wire(component_avps(v), n) == components_wire(v, n),
    decreases n,
{
    if n > 0 {
        lemma_components_wire(v, (n - 1) as nat);
        lemma_component_wire(v[n - 1]);
        assert(component_avps(v)[n - 1] == component_avp(v[n - 1]));
    }
}

/// Whether a dictionary takes the media AVPs for what they are: the component
/// and the sub-component for groups, the rest for plain values.
pub open spec fn knows_media(dict: DictText) -> bool {
    &&& is_group(dict, 517, 10415)
    &&& is_group(dict, 519, 10415)
    &&& !is_group(dict, 507, 10415)
    &&& !is_group(dict, 509, 10415)
    &&& !is_group(dict, 511, 10415)
    &&& !is_group(dict, 512, 10415)
    &&& !is_group(dict, 515, 10415)
    &&& !is_group(dict, 516, 10415)
    &&& !is_group(dict, 518, 10415)
    &&& !is_group(dict, 520, 10415)
    &&& !is_group(dict, 524, 10415)
}

proof fn lemma_flow_readable(dict: DictText, f: FlowText)
    requires
        knows_media(dict),
    ensures
        readable(dict, flow_avp(f)),
{
    let children = flow_children(f);
    assert forall|i: int| 0 <= i < children.len() implies readable(dict, #[trigger] children[i]) by {
        let d = description_avps(f.descriptions);
        if 1 <= i < 1 + d.len() {
            assert(children[i] == d[i - 1]);
        }
    }
    lemma_all_readable(dict, children, children.len());
}

proof fn lemma_component_readable(dict: DictText, c: ComponentText)
    requires
        knows_media(dict),
    ensures
        readable(dict, component_avp(c)),
{
    let children = component_head(c) + component_tail(c);
    assert forall|i: int| 0 <= i < children.len() implies readable(dict, #[trigger] children[i]) by {
        let flows = flow_avps(c.flows);
        if 1 <= i < 1 + flows.len() {
            assert(children[i] == flow_avp(c.flows[i - 1]));
            lemma_flow_readable(dict, c.flows[i - 1]);
        }
    }
    lemma_all_readable(dict, children, children.len());
}

/// The number that the first vendor AVP of a code carries.
pub open spec fn number_at(avps: Seq<AvpText>, code: u32) -> Option<u32> {
    match find_avp(avps, code, 10415) {
        Some(a) => u32_of(a),
        None => None,
    }
}

/// The number that stands for a kind of media on the wire.
pub open spec fn media_number(kind: MediaType) -> u32 {
    match kind {
        MediaType::Audio => 0,
        MediaType::Video => 1,
        MediaType::Data => 2,
        MediaType::Application => 3,
        MediaType::Control => 4,
        MediaType::Text => 5,
        MediaType::Message => 6,
        MediaType::Other => 0xFFFFFFFF,
    }
}

/// The number that stands for a status on the wire.
pub open spec fn status_on_wire(status: Option<FlowStatus>) -> Option<u32> {
    match status {
        Some(FlowStatus::EnabledUplink) => Some(0),
        Some(FlowStatus::EnabledDownlink) => Some(1),
        Some(FlowStatus::Enabled) => Some(2),
        Some(FlowStatus::Disabled) => Some(3),
        Some(FlowStatus::Removed) => Some(4),
        None => None,
    }
}

/// The number that stands for a usage on the wire.
pub open spec fn usage_on_wire(usage: Option<FlowUsage>) -> Option<u32> {
    match usage {
        Some(FlowUsage::NoInformation) => Some(0),
        Some(FlowUsage::Rtcp) => Some(1),
        Some(FlowUsage::AfSignalling) => Some(2),
        None => None,
    }
}

/// Whether an AVP is the sub-component of a flow, each part in the AVP of its
/// own code.
pub open spec fn carries_flow(a: AvpText, flow: MediaFlow) -> bool {
    &&& a.code == 519 && a.vendor == 10415
    &&& a.value matches DataText::Grouped(children)
    &&& number_at(children, 509) == Some(flow.flow_number)
    &&& number_at(children, 511) == status_on_wire(flow.status)
    &&& number_at(children, 512) == usage_on_wire(flow.usage)
    &&& children.len() >= 1 + flow.descriptions@.len()
    &&& forall|k: int|
        0 <= k < flow.descriptions@.len() ==> (#[trigger] children[1 + k]).code == 507 && children[1
            + k].vendor == 10415 && children[1 + k].value == DataText::Raw(
            encode_utf8(flow.descriptions@[k]@),
        )
}

/// Whether an AVP is the description of a component, each part in the AVP of
/// its own code and the flows in their order behind the number.
pub open spec fn carries_component(a: AvpText, c: MediaComponent) -> bool {
    &&& a.code == 517 && a.vendor == 10415
    &&& a.value matches DataText::Grouped(children)
    &&& number_at(children, 518) == Some(c.number)
    &&& number_at(children, 520) == Some(media_number(c.media_type))
    &&& number_at(children, 516) == c.max_bandwidth_ul
    &&& number_at(children, 515) == c.max_bandwidth_dl
    &&& number_at(children, 511) == status_on_wire(c.flow_status)
    &&& match c.codec_data {
        Some(data) => find_avp(children, 524, 10415) matches Some(codec) && codec.value
            == DataText::Raw(data@),
        None => find_avp(children, 524, 10415) is None,
    }
    &&& children.len() >= 1 + c.flows@.len()
    &&& forall|j: int|
        0 <= j < c.flows@.len() ==> carries_flow(#[trigger] children[1 + j], c.flows@[j])
}

proof fn lemma_leaf_reads_back(code: u32, n: u32)
    ensures
        u32_of(raw_avp(code, 10415, be_bytes(n as nat, 4))) == Some(n),
{
    lemma_u32_reads_back(n);
}

proof fn lemma_find_leaf(code: u32, value: Option<u32>, wanted: u32)
    ensures
        (match find_avp(opt_leaf(code, value), wanted, 10415) {
            Some(a) => u32_of(a),
            None => None,
        }) == if wanted == code {
            value
        } else {
            None
        },
        find_avp(opt_leaf(code, value), wanted, 10415) is Some <==> wanted == code && value is Some,
{
    if let Some(n) = value {
        lemma_find_one(raw_avp(code, 10415, be_bytes(n as nat, 4)), wanted, 10415);
        lemma_leaf_reads_back(code, n);
    }
}

proof fn lemma_flow_carried(flow: MediaFlow)
    ensures
        carries_flow(flow_avp(flow@), flow),
{
    let f = flow@;
    let children = flow_children(f);
    let number = raw_avp(509, 10415, be_bytes(f.flow_number as nat, 4));
    let d = description_avps(f.descriptions);
    let status = opt_leaf(511, status_number(f.status));
    let usage = opt_leaf(512, usage_number(f.usage));
    lemma_leaf_reads_back(509, f.flow_number);
    assert forall|code: u32| code == 509 || code == 511 || code == 512 implies #[trigger] number_at(
        children,
        code,
    ) == (if code == 509 {
        Some(f.flow_number)
    } else if code == 511 {
        status_number(f.status)
    } else {
        usage_number(f.usage)
    }) by {
        lemma_find_one(number, code, 10415);
        lemma_find_elsewhere(d, code, 10415);
        lemma_find_leaf(511, status_number(f.status), code);
        lemma_find_leaf(512, usage_number(f.usage), code);
        lemma_find_concat(seq![number], d, code, 10415);
        lemma_find_concat(seq![number] + d, status, code, 10415);
        lemma_find_concat(seq![number] + d + status, usage, code, 10415);
    }
    assert forall|k: int| 0 <= k < flow.descriptions@.len() implies (#[trigger] children[1
        + k]).code == 507 && children[1 + k].vendor == 10415 && children[1 + k].value
        == DataText::Raw(encode_utf8(flow.descriptions@[k]@)) by {
        assert(children[1 + k] == d[k]);
        assert(f.descriptions[k] == flow.descriptions@[k]@);
    }
}

proof fn lemma_component_carried(component: MediaComponent)
    ensures
        carries_component(component_avp(component@), component),
{
    let c = component@;
    let head = component_head(c);
    let tail = component_tail(c);
    let children = head + tail;
    let number = raw_avp(518, 10415, be_bytes(c.number as nat, 4));
    let flows = flow_avps(c.flows);
    let kind_number = media_type_code(c.media_type);
    let kind = raw_avp(520, 10415, be_bytes(kind_number as nat, 4));
    let ul = opt_leaf(516, c.max_bandwidth_ul);
    let dl = opt_leaf(515, c.max_bandwidth_dl);
    let status = opt_leaf(511, status_number(c.flow_status));
    let codec = opt_octets_leaf(524, c.codec_data);
    lemma_leaf_reads_back(518, c.number);
    lemma_leaf_reads_back(520, kind_number);
    assert forall|code: u32|
        code != 519 && (code == 518 || code == 520 || code == 516 || code == 515 || code == 511
            || code == 524) implies #[trigger] find_avp(children, code, 10415) == (if code == 518 {
        Some(number)
    } else if code == 520 {
        Some(kind)
    } else if code == 516 {
        find_avp(ul, code, 10415)
    } else if code == 515 {
        find_avp(dl, code, 10415)
    } else if code == 511 {
        find_avp(status, code, 10415)
    } else {
        find_avp(codec, code, 10415)
    }) by {
        lemma_find_one(number, code, 10415);
        lemma_find_one(kind, code, 10415);
        lemma_find_elsewhere(flows, code, 10415);
        lemma_find_leaf(516, c.max_bandwidth_ul, code);
        lemma_find_leaf(515, c.max_bandwidth_dl, code);
        lemma_find_leaf(511, status_number(c.flow_status), code);
        if let Some(data) = c.codec_data {
            lemma_find_one(raw_avp(524, 10415, data), code, 10415);
        }
        lemma_find_concat(seq![number], flows, code, 10415);
        lemma_find_concat(seq![kind], ul, code, 10415);
        lemma_find_concat(seq![kind] + ul, dl, code, 10415);
        lemma_find_concat(seq![kind] + ul + dl, status, code, 10415);
        lemma_find_concat(seq![kind] + ul + dl + status, codec, code, 10415);
        lemma_find_concat(head, tail, code, 10415);
    }
    lemma_find_leaf(516, c.max_bandwidth_ul, 516);
    lemma_find_leaf(515, c.max_bandwidth_dl, 515);
    lemma_find_leaf(511, status_number(c.flow_status), 511);
    assert(find_avp(children, 518, 10415) == Some(number));
    assert(find_avp(children, 520, 10415) == Some(kind));
    assert(find_avp(children, 516, 10415) == find_avp(ul, 516, 10415));
    assert(find_avp(children, 515, 10415) == find_avp(dl, 515, 10415));
    assert(find_avp(children, 511, 10415) == find_avp(status, 511, 10415));
    assert(find_avp(children, 524, 10415) == find_avp(codec, 524, 10415));
    if let Some(data) = c.codec_data {
        lemma_find_one(raw_avp(524, 10415, data), 524, 10415);
    }
    assert forall|j: int| 0 <= j < component.flows@.len() implies carries_flow(
        #[trigger] children[1 + j],
        component.flows@[j],
    ) by {
        assert(children[1 + j] == flows[j]);
        assert(c.flows[j] == component.flows@[j]@);
        lemma_flow_carried(component.flows@[j]);
    }
}

/// An encoded component reads back, under a dictionary that knows the media
/// AVPs, as one description whose AVPs carry the component's values, each under
/// its own code: the uplink bandwidth in Max-Requested-Bandwidth-UL, the
/// downlink bandwidth in Max-Requested-Bandwidth-DL, and so on.
pub proof fn encoded_component_reads_back(dict: DictText, component: MediaComponent, wire: Vec<u8>)
    requires
        knows_media(dict),
        call_ensures(MediaComponent::encode, (&component,), wire),
        wire@.len() < 0xFFFFFC,
    ensures
        avps_of(dict, wire@) matches Some(read) && read.len() == 1 && carries_component(
            read[0],
            component,
        ),
{
    let a = component_avp(component@);
    lemma_component_wire(component@);
    lemma_wire_one(a);
    lemma_component_readable(dict, component@);
    lemma_all_readable(dict, seq![a], 1);
    lemma_avps_read_back(dict, seq![a]);
    lemma_component_carried(component);
}

/// An encoded flow reads back as one sub-component that carries the flow's
/// values, each under its own code.
pub proof fn encoded_flow_reads_back(dict: DictText, flow: MediaFlow, wire: Vec<u8>)
    requires
        knows_media(dict),
        call_ensures(MediaFlow::encode, (&flow,), wire),
        wire@.len() < 0xFFFFFC,
    ensures
        avps_of(dict, wire@) matches Some(read) && read.len() == 1 && carries_flow(read[0], flow),
{
    let a = flow_avp(flow@);
    lemma_flow_wire(flow@);
    lemma_wire_one(a);
    lemma_flow_readable(dict, flow@);
    lemma_all_readable(dict, seq![a], 1);
    lemma_avps_read_back(dict, seq![a]);
    lemma_flow_carried(flow);
}

/// Whether a dictionary takes the AVPs of an authorisation for what they are.
pub open spec fn knows_rx(dict: DictText) -> bool {
    &&& knows_media(dict)
    &&& is_group(dict, 443, 0)
    &&& !is_group(dict, 8, 0)
    &&& !is_group(dict, 97, 0)
    &&& !is_group(dict, 258, 0)
    &&& !is_group(dict, 263, 0)
    &&& !is_group(dict, 264, 0)
    &&& !is_group(dict, 283, 0)
    &&& !is_group(dict, 296, 0)
    &&& !is_group(dict, 444, 0)
    &&& !is_group(dict, 450, 0)
    &&& !is_group(dict, 504, 10415)
}

/// Optional octets as the AVPs of the base protocol that carry them.
spec fn opt_plain(code: u32, value: Option<Seq<u8>>) -> Seq<AvpText> {
    match value {
        Some(b) => seq![raw_avp(code, 0, b)],
        None => Seq::empty(),
    }
}

spec fn opt_plain_wire(code: u32, value: Option<Seq<u8>>) -> Seq<u8> {
    match value {
        Some(b) => avp_of(code, 0, b),
        None => Seq::empty(),
    }
}

spec fn subscription_children(data: Seq<char>, kind: u32) -> Seq<AvpText> {
    seq![raw_avp(450, 0, be_bytes(kind as nat, 4)), raw_avp(444, 0, encode_utf8(data))]
}

spec fn opt_subscription(value: Option<(Seq<char>, u32)>) -> Seq<AvpText> {
    match value {
        Some((data, kind)) => seq![grouped_avp(443, 0, subscription_children(data, kind))],
        None => Seq::empty(),
    }
}

spec fn head_avps(session: Seq<char>, peer: PeerContext, af: Seq<char>) -> Seq<AvpText> {
    seq![
        raw_avp(263, 0, encode_utf8(session)),
        raw_avp(258, 0, be_bytes(16777236, 4)),
        raw_avp(264, 0, encode_utf8(peer.origin_host@)),
        raw_avp(296, 0, encode_utf8(peer.origin_realm@)),
        raw_avp(283, 0, encode_utf8(peer.destination_realm@)),
        raw_avp(504, 10415, encode_utf8(af)),
    ]
}

spec fn ip4_of(args: AarArgs) -> Option<Seq<u8>> {
    match args.framed_ip {
        Some(text) => match ip_of(text@) {
            Some(IpAddr::V4(value)) => Some(be_bytes(value as nat, 4)),
            _ => None,
        },
        None => None,
    }
}

spec fn ip6_of(args: AarArgs) -> Option<Seq<u8>> {
    match args.framed_ipv6 {
        Some(obj) => match ipv6_prefix(obj@) {
            Ok(bytes) => Some(bytes),
            Err(_) => None,
        },
        None => None,
    }
}

spec fn subscriber_of(args: AarArgs) -> Option<(Seq<char>, u32)> {
    match args.subscription_id {
        Some(obj) => match subscription_of(obj@) {
            Ok(subscriber) => Some(subscriber),
            Err(_) => None,
        },
        None => None,
    }
}

proof fn lemma_plain_wire(code: u32, value: Option<Seq<u8>>)
    ensures
        avps_wire(opt_plain(code, value), opt_plain(code, value).len()) == opt_plain_wire(
            code,
            value,
        ),
{
    if let Some(b) = value {
        lemma_wire_one(raw_avp(code, 0, b));
    }
}

proof fn lemma_two_wire(a: AvpText, b: AvpText)
    ensures
        avps_wire(seq![a, b], 2) == avp_wire(a) + avp_wire(b),
{
    lemma_wire_one(a);
    lemma_wire_one(b);
    lemma_wire_concat(seq![a], seq![b]);
    assert(seq![a] + seq![b] =~= seq![a, b]);
}

proof fn lemma_subscription_wire(data: Seq<char>, kind: u32)
    ensures
        avp_wire(grouped_avp(443, 0, subscription_children(data, kind))) == avp_of(
            443,
            0,
            avp_of(450, 0, be_bytes(kind as nat, 4)) + avp_of(444, 0, encode_utf8(data)),
        ),
{
    lemma_two_wire(
        raw_avp(450, 0, be_bytes(kind as nat, 4)),
        raw_avp(444, 0, encode_utf8(data)),
    );
}

proof fn lemma_aar_head_wire(session: Seq<char>, peer: PeerContext, af: Seq<char>)
    ensures
        avps_wire(head_avps(session, peer, af), 6) == aar_head(session, peer, af),
{
    let v = head_avps(session, peer, af);
    lemma_two_wire(v[0], v[1]);
    lemma_wire_one(v[2]);
    lemma_wire_one(v[3]);
    lemma_wire_one(v[4]);
    lemma_wire_one(v[5]);
    lemma_wire_concat(seq![v[0], v[1]], seq![v[2]]);
    assert(seq![v[0], v[1]] + seq![v[2]] =~= seq![v[0], v[1], v[2]]);
    lemma_wire_concat(seq![v[0], v[1], v[2]], seq![v[3]]);
    assert(seq![v[0], v[1], v[2]] + seq![v[3]] =~= seq![v[0], v[1], v[2], v[3]]);
    lemma_wire_concat(seq![v[0], v[1], v[2], v[3]], seq![v[4]]);
    assert(seq![v[0], v[1], v[2], v[3]] + seq![v[4]] =~= seq![v[0], v[1], v[2], v[3], v[4]]);
    lemma_wire_concat(seq![v[0], v[1], v[2], v[3], v[4]], seq![v[5]]);
    assert(seq![v[0], v[1], v[2], v[3], v[4]] + seq![v[5]] =~= v);
}

spec fn aar_avps(session: Seq<char>, args: AarArgs, peer: PeerContext, c: Seq<ComponentText>) -> Seq<
    AvpText,
> {
    head_avps(session, peer, args.af_application_id@) + component_avps(c) + opt_plain(
        8,
        ip4_of(args),
    ) + opt_plain(97, ip6_of(args)) + opt_subscription(subscriber_of(args))
}

proof fn lemma_wire_five(
    a: Seq<AvpText>,
    b: Seq<AvpText>,
    c: Seq<AvpText>,
    d: Seq<AvpText>,
    e: Seq<AvpText>,
    wire: Seq<u8>,
)
    requires
        wire == avps_wire(a, a.len()) + avps_wire(b, b.len()) + avps_wire(c, c.len()) + avps_wire(
            d,
            d.len(),
        ) + avps_wire(e, e.len()),
    ensures
        avps_wire(a + b + c + d + e, (a + b + c + d + e).len()) == wire,
{
    lemma_wire_concat(a, b);
    lemma_wire_concat(a + b, c);
    lemma_wire_concat(a + b + c, d);
    lemma_wire_concat(a + b + c + d, e);
}

proof fn lemma_opt_subscription_wire(value: Option<(Seq<char>, u32)>)
    ensures
        avps_wire(opt_subscription(value), opt_subscription(value).len()) == subscription_octets(
            value,
        ),
{
    if let Some((data, kind)) = value {
        lemma_subscription_wire(data, kind);
        lemma_wire_one(grouped_avp(443, 0, subscription_children(data, kind)));
    }
}

spec fn subscription_octets(value: Option<(Seq<char>, u32)>) -> Seq<u8> {
    match value {
        Some((data, kind)) => avp_of(
            443,
            0,
            avp_of(450, 0, be_bytes(kind as nat, 4)) + avp_of(444, 0, encode_utf8(data)),
        ),
        None => Seq::empty(),
    }
}

spec fn aar_payload(session: Seq<char>, args: AarArgs, peer: PeerContext, c: Seq<ComponentText>) -> Seq<
    u8,
> {
    aar_head(session, peer, args.af_application_id@) + components_wire(c, c.len()) + opt_plain_wire(
        8,
        ip4_of(args),
    ) + opt_plain_wire(97, ip6_of(args)) + subscription_octets(subscriber_of(args))
}

#[verifier::spinoff_prover]
#[verifier::rlimit(40)]
proof fn lemma_aar_wire(session: Seq<char>, args: AarArgs, peer: PeerContext, c: Seq<ComponentText>)
    ensures
        avps_wire(
            aar_avps(session, args, peer, c),
            aar_avps(session, args, peer, c).len(),
        ) == aar_payload(session, args, peer, c),
{
    let head = head_avps(session, peer, args.af_application_id@);
    lemma_aar_head_wire(session, peer, args.af_application_id@);
    lemma_components_wire(c, c.len());
    lemma_plain_wire(8, ip4_of(args));
    lemma_plain_wire(97, ip6_of(args));
    lemma_opt_subscription_wire(subscriber_of(args));
    assert(component_avps(c).len() == c.len());
    lemma_wire_five(
        head,
        component_avps(c),
        opt_plain(8, ip4_of(args)),
        opt_plain(97, ip6_of(args)),
        opt_subscription(subscriber_of(args)),
        aar_payload(session, args, peer, c),
    );
}

proof fn lemma_aar_readable(
    dict: DictText,
    session: Seq<char>,
    args: AarArgs,
    peer: PeerContext,
    c: Seq<ComponentText>,
)
    requires
        knows_rx(dict),
    ensures
        all_readable(
            dict,
            aar_avps(session, args, peer, c),
            aar_avps(session, args, peer, c).len(),
        ),
{
    let all = aar_avps(session, args, peer, c);
    let head = head_avps(session, peer, args.af_application_id@);
    assert(head.len() == 6);
    if let Some((data, kind)) = subscriber_of(args) {
        let children = subscription_children(data, kind);
        assert forall|i: int| 0 <= i < children.len() implies readable(
            dict,
            #[trigger] children[i],
        ) by {}
        lemma_all_readable(dict, children, children.len());
        assert(readable(dict, grouped_avp(443, 0, children)));
    }
    assert forall|i: int| 0 <= i < all.len() implies readable(dict, #[trigger] all[i]) by {
        if i < 6 {
            assert(all[i] == head[i]);
        } else if i < 6 + c.len() {
            assert(all[i] == component_avp(c[i - 6]));
            lemma_component_readable(dict, c[i - 6]);
        }
    }
    lemma_all_readable(dict, all, all.len());
}

proof fn lemma_aar_finds(
    session: Seq<char>,
    args: AarArgs,
    peer: PeerContext,
    c: Seq<ComponentText>,
    code: u32,
)
    requires
        code != 517,
    ensures
        find_avp(aar_avps(session, args, peer, c), code, 0) == (if code == 263 || code == 258
            || code == 264 || code == 296 || code == 283 {
            find_avp(head_avps(session, peer, args.af_application_id@), code, 0)
        } else if code == 8 {
            find_avp(opt_plain(8, ip4_of(args)), 8, 0)
        } else if code == 97 {
            find_avp(opt_plain(97, ip6_of(args)), 97, 0)
        } else if code == 443 {
            find_avp(opt_subscription(subscriber_of(args)), 443, 0)
        } else {
            None
        }),
        code == 263 ==> find_avp(head_avps(session, peer, args.af_application_id@), code, 0) == Some(
            raw_avp(263, 0, encode_utf8(session)),
        ),
        code == 258 ==> find_avp(head_avps(session, peer, args.af_application_id@), code, 0) == Some(
            raw_avp(258, 0, be_bytes(16777236, 4)),
        ),
        code == 264 ==> find_avp(head_avps(session, peer, args.af_application_id@), code, 0) == Some(
            raw_avp(264, 0, encode_utf8(peer.origin_host@)),
        ),
        code == 296 ==> find_avp(head_avps(session, peer, args.af_application_id@), code, 0) == Some(
            raw_avp(296, 0, encode_utf8(peer.origin_realm@)),
        ),
        code == 283 ==> find_avp(head_avps(session, peer, args.af_application_id@), code, 0) == Some(
            raw_avp(283, 0, encode_utf8(peer.destination_realm@)),
        ),
{
    let head = head_avps(session, peer, args.af_application_id@);
    let media = component_avps(c);
    let ip4 = opt_plain(8, ip4_of(args));
    let ip6 = opt_plain(97, ip6_of(args));
    let sub = opt_subscription(subscriber_of(args));
    lemma_find_elsewhere(media, code, 0);
    lemma_find_is_first(head, code, 0);
    if find_avp(head, code, 0) is Some {
        let i = choose|i: int| #[trigger]
            first_of_kind(head, i, code, 0) && head[i] == find_avp(head, code, 0)->0;
        assert(0 <= i < 6);
    } else {
        assert(head[0].code == 263 && head[1].code == 258 && head[2].code == 264 && head[3].code
            == 296 && head[4].code == 283);
    }
    if let Some(b) = ip4_of(args) {
        lemma_find_one(raw_avp(8, 0, b), code, 0);
    }
    if let Some(b) = ip6_of(args) {
        lemma_find_one(raw_avp(97, 0, b), code, 0);
    }
    if let Some((data, kind)) = subscriber_of(args) {
        lemma_find_one(grouped_avp(443, 0, subscription_children(data, kind)), code, 0);
    }
    lemma_find_concat(head, media, code, 0);
    lemma_find_concat(head + media, ip4, code, 0);
    lemma_find_concat(head + media + ip4, ip6, code, 0);
    lemma_find_concat(head + media + ip4 + ip6, sub, code, 0);
}

spec fn aar_message(
    session: Seq<char>,
    args: AarArgs,
    peer: PeerContext,
    c: Seq<ComponentText>,
) -> MsgText {
    MsgText {
        flags: 0xC0,
        command_code: 265,
        application_id: 16777236,
        hop_by_hop: peer.hop_by_hop,
        end_to_end: peer.end_to_end,
        avps: aar_avps(session, args, peer, c),
    }
}

proof fn lemma_aar_payload(session: Seq<char>, args: AarArgs, peer: PeerContext, wire: Seq<u8>)
    requires
        session == aar_session(args, peer),
        aar_wire(args, peer) == Ok::<Seq<u8>, ErrorText>(wire),
    ensures
        aar_components(args) is Ok,
        args.framed_ip is Some ==> ip4_of(args) is Some,
        args.framed_ipv6 is Some ==> ip6_of(args) is Some,
        args.subscription_id is Some ==> subscriber_of(args) is Some,
        wire == message_wire(aar_message(session, args, peer, aar_components(args)->Ok_0)),
{
    let c = aar_components(args)->Ok_0;
    lemma_aar_wire(session, args, peer, c);
    let sub = subscription_octets(subscriber_of(args));
    assert(framed_ip_wire(opt_text(args.framed_ip)) == Ok::<Seq<u8>, ErrorText>(
        opt_plain_wire(8, ip4_of(args)),
    ));
    assert(framed_ipv6_wire(args.framed_ipv6) == Ok::<Seq<u8>, ErrorText>(
        opt_plain_wire(97, ip6_of(args)),
    ));
    assert(subscription_wire(args.subscription_id) == Ok::<Seq<u8>, ErrorText>(sub));
}

proof fn lemma_aar_reads_back(
    dict: DictText,
    session: Seq<char>,
    args: AarArgs,
    peer: PeerContext,
    wire: Seq<u8>,
)
    requires
        knows_rx(dict),
        session == aar_session(args, peer),
        aar_wire(args, peer) == Ok::<Seq<u8>, ErrorText>(wire),
        wire.len() < 0x1000000,
    ensures
        aar_components(args) is Ok,
        args.framed_ip is Some ==> ip4_of(args) is Some,
        args.framed_ipv6 is Some ==> ip6_of(args) is Some,
        args.subscription_id is Some ==> subscriber_of(args) is Some,
        message_of(dict, wire) == Some(
            aar_message(session, args, peer, aar_components(args)->Ok_0),
        ),
{
    lemma_aar_payload(session, args, peer, wire);
    lemma_aar_readable(dict, session, args, peer, aar_components(args)->Ok_0);
    wire_reads_back(dict, aar_message(session, args, peer, aar_components(args)->Ok_0));
}

proof fn lemma_aar_head_texts(
    session: Seq<char>,
    args: AarArgs,
    peer: PeerContext,
    c: Seq<ComponentText>,
)
    ensures
        ({
            let avps = aar_avps(session, args, peer, c);
            &&& text_avp(avps, 263) == Some(session)
            &&& text_avp(avps, 264) == Some(peer.origin_host@)
            &&& text_avp(avps, 296) == Some(peer.origin_realm@)
            &&& text_avp(avps, 283) == Some(peer.destination_realm@)
            &&& find_avp(avps, 258, 0) matches Some(a) && u32_of(a) == Some(16777236u32)
        }),
{
    lemma_aar_finds(session, args, peer, c, 263);
    lemma_aar_finds(session, args, peer, c, 258);
    lemma_aar_finds(session, args, peer, c, 264);
    lemma_aar_finds(session, args, peer, c, 296);
    lemma_aar_finds(session, args, peer, c, 283);
    lemma_reads_back(session);
    lemma_reads_back(peer.origin_host@);
    lemma_reads_back(peer.origin_realm@);
    lemma_reads_back(peer.destination_realm@);
    lemma_u32_reads_back(16777236);
}

proof fn lemma_aar_places(
    session: Seq<char>,
    args: AarArgs,
    peer: PeerContext,
    components: Seq<MediaComponent>,
)
    ensures
        ({
            let avps = aar_avps(session, args, peer, components_text(components));
            &&& avps.len() >= 6 + components.len()
            &&& avps[5] == raw_avp(504, 10415, encode_utf8(args.af_application_id@))
            &&& forall|i: int|
                0 <= i < components.len() ==> carries_component(
                    #[trigger] avps[6 + i],
                    components[i],
                )
        }),
{
    let c = components_text(components);
    let avps = aar_avps(session, args, peer, c);
    let head = head_avps(session, peer, args.af_application_id@);
    assert(avps[5] == head[5]);
    assert forall|i: int| 0 <= i < components.len() implies carries_component(
        #[trigger] avps[6 + i],
        components[i],
    ) by {
        assert(avps[6 + i] == component_avps(c)[i]);
        assert(c[i] == components[i]@);
        lemma_component_carried(components[i]);
    }
}

/// What is authorised is what was asked for: the AA-Request reads back, under a
/// dictionary that knows its AVPs, with the peer's identifiers, the session, the
/// origin, the destination and the application each under its own code, and
/// with the media components in the script's order.
pub proof fn authorisation_reads_back(
    dict: DictText,
    args: AarArgs,
    peer: PeerContext,
    obj: PyValue,
    components: Vec<MediaComponent>,
    request: WireRequest,
)
    requires
        knows_rx(dict),
        call_ensures(rx_aar, (&args, Some(&peer)), Ok(Some(request))),
        args.media_components matches Some(given) && given == obj,
        call_ensures(parse_media_components, (&obj,), Ok(components)),
        request.wire@.len() < 0x1000000,
    ensures
        request.session_id@ == (match args.session_id {
            Some(id) => id@,
            None => peer.new_session_id@,
        }),
        message_of(dict, request.wire@) matches Some(m) && {
            &&& m.flags == 0xC0
            &&& m.command_code == 265
            &&& m.application_id == 16777236
            &&& m.hop_by_hop == peer.hop_by_hop
            &&& m.end_to_end == peer.end_to_end
            &&& text_avp(m.avps, 263) == Some(request.session_id@)
            &&& text_avp(m.avps, 264) == Some(peer.origin_host@)
            &&& text_avp(m.avps, 296) == Some(peer.origin_realm@)
            &&& text_avp(m.avps, 283) == Some(peer.destination_realm@)
            &&& find_avp(m.avps, 258, 0) matches Some(a) && u32_of(a) == Some(16777236u32)
            &&& m.avps.len() >= 6 + components@.len()
            &&& m.avps[5].code == 504 && m.avps[5].vendor == 10415
            &&& m.avps[5].value == DataText::Raw(encode_utf8(args.af_application_id@))
            &&& forall|i: int|
                0 <= i < components@.len() ==> carries_component(
                    #[trigger] m.avps[6 + i],
                    components@[i],
                )
        },
{
    let session = request.session_id@;
    lemma_aar_reads_back(dict, session, args, peer, request.wire@);
    lemma_aar_head_texts(session, args, peer, components_text(components@));
    lemma_aar_places(session, args, peer, components@);
}

/// Whether the first Framed-IP-Address carries the IPv4 address that was given,
/// and there is none where none was.
pub open spec fn shows_ipv4(avps: Seq<AvpText>, given: Option<String>) -> bool {
    match given {
        Some(text) => ip_of(text@) matches Some(IpAddr::V4(value)) && (find_avp(avps, 8, 0)
            matches Some(a) && u32_of(a) == Some(value)),
        None => find_avp(avps, 8, 0) is None,
    }
}

/// Whether the first Framed-IPv6-Prefix carries the prefix that was given: the
/// octets themselves, or the whole of the address that a text names.
pub open spec fn shows_ipv6(avps: Seq<AvpText>, given: Option<PyValue>) -> bool {
    match given {
        Some(obj) => find_avp(avps, 97, 0) matches Some(a) && (a.value matches DataText::Raw(prefix)
            && match obj@ {
            PyText::Bytes(octets) => prefix == octets,
            PyText::Text(text) => ip_of(text) matches Some(IpAddr::V6(value)) && prefix.len() == 18
                && prefix[0] == 0 && prefix[1] == 128 && prefix.skip(2) == be_bytes(
                value as nat,
                16,
            ),
            _ => as_bytes(obj@) == Ok::<Seq<u8>, ErrorText>(prefix),
        }),
        None => find_avp(avps, 97, 0) is None,
    }
}

/// Whether a number is the subscription type that a script gave: the number
/// itself, or that of the name.
pub open spec fn subscription_kind(given: PyText, kind: u32) -> bool {
    match given {
        PyText::Text(name) => {
            ||| kind == 0 && (lower(name) == "e164"@ || lower(name) == "e.164"@)
            ||| kind == 1 && lower(name) == "imsi"@
            ||| kind == 2 && (lower(name) == "sip_uri"@ || lower(name) == "sip-uri"@ || lower(name)
                == "sip"@)
            ||| kind == 3 && lower(name) == "nai"@
            ||| kind == 4 && lower(name) == "private"@
        },
        _ => stands_for(given, kind),
    }
}

/// Whether the first Subscription-Id carries the data that was given beside its
/// type.
pub open spec fn shows_subscriber(avps: Seq<AvpText>, given: Option<PyValue>) -> bool {
    match given {
        Some(obj) => {
            &&& obj@ matches PyText::Tuple(pair)
            &&& pair.len() == 2
            &&& pair[0] matches PyText::Text(data)
            &&& find_avp(avps, 443, 0) matches Some(a)
            &&& a.value matches DataText::Grouped(children)
            &&& text_avp(children, 444) == Some(data)
            &&& find_avp(children, 450, 0) matches Some(kind)
            &&& u32_of(kind) matches Some(n)
            &&& subscription_kind(pair[1], n)
        },
        None => find_avp(avps, 443, 0) is None,
    }
}

proof fn lemma_shows_ipv4(session: Seq<char>, args: AarArgs, peer: PeerContext, c: Seq<ComponentText>)
    requires
        args.framed_ip is Some ==> ip4_of(args) is Some,
    ensures
        shows_ipv4(aar_avps(session, args, peer, c), args.framed_ip),
{
    lemma_aar_finds(session, args, peer, c, 8);
    if let Some(b) = ip4_of(args) {
        lemma_find_one(raw_avp(8, 0, b), 8, 0);
        lemma_u32_reads_back(ip_of(args.framed_ip->0@)->0->V4_0);
    }
}

proof fn lemma_shows_ipv6(session: Seq<char>, args: AarArgs, peer: PeerContext, c: Seq<ComponentText>)
    requires
        args.framed_ipv6 is Some ==> ip6_of(args) is Some,
    ensures
        shows_ipv6(aar_avps(session, args, peer, c), args.framed_ipv6),
{
    lemma_aar_finds(session, args, peer, c, 97);
    if let Some(b) = ip6_of(args) {
        lemma_find_one(raw_avp(97, 0, b), 97, 0);
        let obj = args.framed_ipv6->0;
        if let PyText::Text(text) = obj@ {
            assert(as_bytes(obj@) is Err);
            let value = ip_of(text)->0->V6_0;
            lemma_be_bytes_len(value as nat, 16);
            assert(b.skip(2) =~= be_bytes(value as nat, 16));
        }
    }
}

proof fn lemma_shows_subscriber(
    session: Seq<char>,
    args: AarArgs,
    peer: PeerContext,
    c: Seq<ComponentText>,
)
    requires
        args.subscription_id is Some ==> subscriber_of(args) is Some,
    ensures
        shows_subscriber(aar_avps(session, args, peer, c), args.subscription_id),
{
    lemma_aar_finds(session, args, peer, c, 443);
    if let Some((data, kind)) = subscriber_of(args) {
        let children = subscription_children(data, kind);
        lemma_find_one(grouped_avp(443, 0, children), 443, 0);
        assert(children =~= seq![children[0]] + seq![children[1]]);
        lemma_find_one(children[0], 450, 0);
        lemma_find_one(children[0], 444, 0);
        lemma_find_one(children[1], 444, 0);
        lemma_find_concat(seq![children[0]], seq![children[1]], 450, 0);
        lemma_find_concat(seq![children[0]], seq![children[1]], 444, 0);
        lemma_reads_back(data);
        lemma_u32_reads_back(kind);
    }
}

/// The terminal's addresses and the subscriber stand in the AA-Request under
/// their own codes: the IPv4 address in Framed-IP-Address, the IPv6 prefix in
/// Framed-IPv6-Prefix, and in Subscription-Id the data beside its type.
pub proof fn authorisation_names_the_terminal(
    dict: DictText,
    args: AarArgs,
    peer: PeerContext,
    request: WireRequest,
)
    requires
        knows_rx(dict),
        call_ensures(rx_aar, (&args, Some(&peer)), Ok(Some(request))),
        request.wire@.len() < 0x1000000,
    ensures
        message_of(dict, request.wire@) matches Some(m) && {
            &&& shows_ipv4(m.avps, args.framed_ip)
            &&& shows_ipv6(m.avps, args.framed_ipv6)
            &&& shows_subscriber(m.avps, args.subscription_id)
        },
{
    let session = request.session_id@;
    lemma_aar_reads_back(dict, session, args, peer, request.wire@);
    let c = aar_components(args)->Ok_0;
    lemma_shows_ipv4(session, args, peer, c);
    lemma_shows_ipv6(session, args, peer, c);
    lemma_shows_subscriber(session, args, peer, c);
}

} // verus!
