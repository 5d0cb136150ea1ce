//! Laws of the arguments that a script hands over.

use crate::diameter::dictionary::{avp_name_to_snake, snake, Dictionary};
use crate::diameter::generic::{
    json_dict, json_py, json_to_py, kwargs_wire, send_request, JsonValue,
};
use crate::diameter::rx::{PeerContext, WireRequest};
use crate::error::{ErrorText, ScriptError};
use crate::gateway::{group_named, PyDestination, PyGateway};
use crate::laws::gateway::{selection_is_the_best_usable_destination, shows_destination};
use crate::laws::pyvalue::lemma_map_holds;
use crate::numbers::{
    header_named, resolve_rewrite_policy, walk_of, IdentityHeader, NumberPolicy, NumberRuntime,
};
use crate::pyvalue::{
    assigned_entry_is_found, entries_text, entry, items_text, string_map, PyText, PyValue,
};
use crate::text::{assoc, opt_text, texts};
use vstd::prelude::*;
use vstd::string::*;

verus! {

proof fn lemma_assoc_index(pairs: Seq<(Seq<char>, Seq<char>)>, key: Seq<char>) -> (at: int)
    requires
        assoc(pairs, key) is Some,
    ensures
        0 <= at < pairs.len(),
        pairs[at] == (key, assoc(pairs, key)->0),
    decreases pairs.len(),
{
    if pairs[0].0 == key {
        0
    } else {
        let at = lemma_assoc_index(pairs.skip(1), key);
        assert(pairs.skip(1)[at] == pairs[at + 1]);
        at + 1
    }
}

/// A destination that is selected by attributes has each of them, with the value
/// that was given last for it.
pub proof fn selected_destination_has_each_attribute(
    gateway: PyGateway,
    name: &str,
    key: Option<&str>,
    attrs: Vec<(PyValue, PyValue)>,
    draw: u64,
    dest: PyDestination,
    i: int,
    attribute: &str,
    value: Seq<char>,
    got: Option<String>,
)
    requires
        call_ensures(PyGateway::select, (&gateway, name, key, Some(attrs), draw), Ok(Some(dest))),
        0 <= i < attrs@.len(),
        attrs@[i].0@ == PyText::Text(attribute@),
        attrs@[i].1@ == PyText::Text(value),
        forall|j: int| i < j < attrs@.len() ==> (#[trigger] attrs@[j]).0@ != PyText::Text(attribute@),
        call_ensures(PyDestination::attr, (&dest, attribute), got),
    ensures
        opt_text(got) == Some(value),
{
    let items = items_text(attrs@);
    assert(items.len() == attrs@.len());
    let wanted = string_map(items)->Ok_0;
    lemma_map_holds(items, attribute@);
    assert(items[i] == (PyText::Text(attribute@), PyText::Text(value)));
    assert(assoc(wanted, attribute@) is Some);
    let found = assoc(wanted, attribute@)->0;
    let k = choose|k: int|
        0 <= k < items.len() && #[trigger] items[k] == (
            PyText::Text(attribute@),
            PyText::Text(found),
        ) && forall|j: int|
            k < j < items.len() ==> (#[trigger] items[j]).0 != PyText::Text(attribute@);
    if i < k {
        assert(attrs@[k].0@ == items[k].0);
    }
    if k < i {
        assert(items[i].0 != PyText::Text(attribute@));
    }
    assert(found == value);
    let at = lemma_assoc_index(wanted, attribute@);
    let group = group_named(gateway@, name@)->0;
    selection_is_the_best_usable_destination(
        gateway,
        name,
        key,
        Some(attrs),
        draw,
        Some(dest),
        group,
        wanted,
    );
    let d = choose|d: int|
        0 <= d < group.destinations.len() && shows_destination(
            dest@,
            #[trigger] group.destinations[d],
        ) && group.destinations[d].healthy && crate::gateway::attrs_match(
            group.destinations[d].attrs,
            wanted,
        );
    assert(assoc(group.destinations[d].attrs, wanted[at].0) == Some(wanted[at].1));
}

proof fn lemma_walk(tokens: Seq<Seq<char>>, headers: Seq<IdentityHeader>)
    requires
        tokens.len() == headers.len(),
        forall|i: int| 0 <= i < tokens.len() ==> header_named(#[trigger] tokens[i]) == Some(headers[i]),
        headers.no_duplicates(),
    ensures
        walk_of(tokens) == Ok::<Seq<IdentityHeader>, ErrorText>(headers),
    decreases tokens.len(),
{
    if tokens.len() > 0 {
        let before = tokens.drop_last();
        let walked = headers.drop_last();
        assert forall|i: int| 0 <= i < before.len() implies header_named(#[trigger] before[i]) == Some(
            walked[i],
        ) by {
            assert(before[i] == tokens[i]);
        }
        lemma_walk(before, walked);
        let last = headers.last();
        assert(header_named(tokens[tokens.len() - 1]) == Some(last));
        if walked.contains(last) {
            let k = choose|k: int| 0 <= k < walked.len() && walked[k] == last;
            assert(headers[k] == headers[headers.len() - 1]);
        }
        assert(walked.push(last) =~= headers);
    } else {
        assert(headers =~= Seq::empty());
    }
}

/// The places that a script names are walked in the order in which it names
/// them.
pub proof fn places_are_walked_in_the_order_named(
    runtime: NumberRuntime,
    format: &str,
    tokens: Vec<String>,
    home: Option<&str>,
    policy: NumberPolicy,
    headers: Seq<IdentityHeader>,
)
    requires
        call_ensures(
            resolve_rewrite_policy,
            (&runtime, None, Some(format), Some(tokens), home),
            Ok(policy),
        ),
        tokens@.len() == headers.len(),
        forall|i: int|
            0 <= i < tokens@.len() ==> header_named((#[trigger] tokens@[i])@) == Some(headers[i]),
        headers.no_duplicates(),
    ensures
        policy.headers@ == headers,
{
    let names = texts(tokens@);
    assert forall|i: int| 0 <= i < names.len() implies header_named(#[trigger] names[i]) == Some(
        headers[i],
    ) by {
        assert(names[i] == tokens@[i]@);
    }
    lemma_walk(names, headers);
}

/// A rewriting takes a policy by name or a format, one of the two and not both;
/// the places go with the format.
pub proof fn rewriting_takes_a_policy_or_a_format(
    runtime: NumberRuntime,
    policy: Option<&str>,
    format: Option<&str>,
    headers: Option<Vec<String>>,
    home: Option<&str>,
    outcome: Result<NumberPolicy, ScriptError>,
)
    requires
        call_ensures(resolve_rewrite_policy, (&runtime, policy, format, headers, home), outcome),
    ensures
        policy is Some && (format is Some || headers is Some) ==> outcome is Err,
        policy is None && format is None ==> outcome is Err,
{
}

/// The words that steer a request are no AVPs of it: with any of them among the
/// keywords the same request goes out as without.
pub proof fn steering_words_are_no_avps(
    dict: Dictionary,
    command: &str,
    application: &str,
    peer: PeerContext,
    with: Vec<(String, PyValue)>,
    without: Vec<(String, PyValue)>,
    given: Result<Option<WireRequest>, ScriptError>,
    bare: WireRequest,
)
    requires
        with@.len() == 1,
        without@.len() == 0,
        with@[0].0@ == "peer"@ || with@[0].0@ == "timeout_ms"@ || with@[0].0@ == "command"@
            || with@[0].0@ == "application"@,
        call_ensures(send_request, (&dict, command, application, Some(&peer), &with), given),
        call_ensures(
            send_request,
            (&dict, command, application, Some(&peer), &without),
            Ok(Some(bare)),
        ),
    ensures
        given matches Ok(Some(request)) && request.wire@ == bare.wire@,
{
    let a = entries_text(with@);
    let b = entries_text(without@);
    assert(a.len() == 1 && b.len() == 0);
    assert(a[0].0 == with@[0].0@);
    reveal_with_fuel(kwargs_wire, 2);
    assert(kwargs_wire(dict@, a, 1) == kwargs_wire(dict@, b, 0));
}

proof fn lemma_json_dict(v: Vec<(String, JsonValue)>, n: nat, i: int)
    requires
        n <= v@.len(),
        0 <= i < n,
        forall|j: int| i < j < n ==> snake((#[trigger] v@[j]).0@) != snake(v@[i].0@),
    ensures
        entry(json_dict(v, n), snake(v@[i].0@)) == Some(json_py(v@[i].1)),
    decreases n,
{
    let m = (n - 1) as nat;
    assigned_entry_is_found(
        json_dict(v, m),
        snake(v@[n - 1].0@),
        json_py(v@[n - 1].1),
        snake(v@[i].0@),
    );
    if i < n - 1 {
        assert(snake(v@[n - 1].0@) != snake(v@[i].0@));
        lemma_json_dict(v, m, i);
    }
}

/// A group of a decoded answer is told under keywords: each value under its name
/// in the form of a keyword, the last of a name counting.
pub proof fn decoded_group_is_told_under_keywords(
    fields: Vec<(String, JsonValue)>,
    told: PyValue,
    i: int,
    name: &str,
    key: String,
    item: PyValue,
)
    requires
        call_ensures(json_to_py, (&JsonValue::Object(fields),), told),
        0 <= i < fields@.len(),
        name@ == fields@[i].0@,
        call_ensures(avp_name_to_snake, (name,), key),
        call_ensures(json_to_py, (&fields@[i].1,), item),
        forall|j: int| i < j < fields@.len() ==> snake((#[trigger] fields@[j]).0@) != key@,
    ensures
        told@ matches PyText::Dict(d) && entry(d, key@) == Some(item@),
{
    lemma_json_dict(fields, fields@.len(), i);
}

} // verus!
