//! Laws of what is registered by name: metrics and namespaces.

use crate::error::ScriptError;
use crate::metrics::{
    series_carries_every_label, PyGauge, PyGaugeChild, PyHistogram, PyHistogramChild,
    PyMetricsNamespace, Series,
};
use crate::namespaces::{is_built_in, occupied, Singletons, Slot, UserNamespaces};
use crate::text::{assoc, pairs_text, texts};
use vstd::prelude::*;
use vstd::string::*;

verus! {

proof fn lemma_series(name: Seq<char>, labels: Vec<String>, given: Vec<(String, String)>, series: Series, i: int)
    requires
        0 <= i < labels@.len(),
        crate::metrics::label_values(texts(labels@), pairs_text(given@)) is Ok,
        crate::metrics::label_values(texts(labels@), pairs_text(given@))->Ok_0 == pairs_text(
            series.labels@,
        ),
    ensures
        series.labels@.len() == labels@.len(),
        series.labels@[i].0@ == labels@[i]@,
        assoc(pairs_text(given@), labels@[i]@) == Some(series.labels@[i].1@),
{
    let names = texts(labels@);
    assert(names.len() == labels@.len());
    assert(names[i] == labels@[i]@);
    series_carries_every_label(names, pairs_text(given@), i);
    assert(pairs_text(series.labels@).len() == series.labels@.len());
    assert(pairs_text(series.labels@)[i] == (series.labels@[i].0@, series.labels@[i].1@));
}

/// A gauge with labels moves the series of its own name whose labels are its
/// names in their order, each with the value that the script gave for it, in
/// whichever way it is moved.
pub proof fn labelled_gauge_carries_each_value(
    metrics: PyMetricsNamespace,
    name: &str,
    labels: Vec<String>,
    gauge: PyGauge,
    given: Vec<(String, String)>,
    child: PyGaugeChild,
    raised: Series,
    lowered: Series,
    placed: Series,
    i: int,
)
    requires
        call_ensures(PyMetricsNamespace::gauge, (&metrics, name, Some(labels), Ok(())), Ok(gauge)),
        call_ensures(PyGauge::labels, (&gauge, Some(&given)), Ok(child)),
        call_ensures(PyGaugeChild::inc, (&child,), raised),
        call_ensures(PyGaugeChild::dec, (&child,), lowered),
        call_ensures(PyGaugeChild::set, (&child,), placed),
        0 <= i < labels@.len(),
    ensures
        raised@ == lowered@ && lowered@ == placed@,
        raised.name@ == name@,
        raised.labels@.len() == labels@.len(),
        raised.labels@[i].0@ == labels@[i]@,
        assoc(pairs_text(given@), labels@[i]@) == Some(raised.labels@[i].1@),
{
    lemma_series(name@, labels, given, raised, i);
}

/// A histogram with labels observes the series of its own name whose labels are
/// its names in their order, each with the value that the script gave for it.
pub proof fn labelled_histogram_carries_each_value(
    metrics: PyMetricsNamespace,
    name: &str,
    labels: Vec<String>,
    histogram: PyHistogram,
    given: Vec<(String, String)>,
    child: PyHistogramChild,
    observed: Series,
    i: int,
)
    requires
        call_ensures(
            PyMetricsNamespace::histogram,
            (&metrics, name, Some(labels), Ok(())),
            Ok(histogram),
        ),
        call_ensures(PyHistogram::labels, (&histogram, Some(&given)), Ok(child)),
        call_ensures(PyHistogramChild::observe, (&child,), observed),
        0 <= i < labels@.len(),
    ensures
        observed.name@ == name@,
        observed.labels@.len() == labels@.len(),
        observed.labels@[i].0@ == labels@[i]@,
        assoc(pairs_text(given@), labels@[i]@) == Some(observed.labels@[i].1@),
{
    lemma_series(name@, labels, given, observed, i);
}

/// A namespace of the user's is kept behind those before it under its own name,
/// unless that name is one of the library's or is taken; then nothing changes.
pub proof fn user_namespace_is_kept_under_its_name(
    namespaces: &mut UserNamespaces,
    name: &str,
    object: u64,
    outcome: Result<(), ScriptError>,
    after: UserNamespaces,
    at: usize,
    found: Option<(String, u64)>,
    reserved: bool,
    i: int,
)
    requires
        old(namespaces).wf(),
        call_ensures(UserNamespaces::set_user_namespace, (namespaces, name, object), outcome),
        call_ensures(is_built_in, (name,), reserved),
        at == old(namespaces)@.len(),
        call_ensures(UserNamespaces::get, (&after, at), found),
    ensures
        reserved ==> outcome is Err,
        0 <= i < old(namespaces)@.len() && old(namespaces)@[i].0 == name@ ==> outcome is Err,
        !reserved && (forall|j: int|
            0 <= j < old(namespaces)@.len() ==> (#[trigger] old(namespaces)@[j]).0 != name@)
            ==> outcome is Ok,
        outcome is Ok && after == *final(namespaces) ==> (found matches Some((kept, id)) && kept@
            == name@ && id == object),
        0 <= i < old(namespaces)@.len() ==> final(namespaces)@[i] == old(namespaces)@[i],
        outcome is Err ==> final(namespaces)@ == old(namespaces)@,
{
}

/// The names that are the library's own.
pub proof fn library_names_are_reserved(name: &str, reserved: bool)
    requires
        call_ensures(is_built_in, (name,), reserved),
    ensures
        reserved <==> seq![
            "proxy"@,
            "registrar"@,
            "auth"@,
            "log"@,
            "cache"@,
            "metrics"@,
            "sdp"@,
            "timer"@,
            "isc"@,
            "b2bua"@,
            "rtpengine"@,
            "gateway"@,
            "cdr"@,
            "registration"@,
            "li"@,
            "diameter"@,
            "presence"@,
            "sbi"@,
            "srs"@,
            "subscribe_state"@,
            "ipsec"@,
            "qos"@,
            "stir"@,
        ].contains(name@),
{
    let names = seq![
        "proxy"@,
        "registrar"@,
        "auth"@,
        "log"@,
        "cache"@,
        "metrics"@,
        "sdp"@,
        "timer"@,
        "isc"@,
        "b2bua"@,
        "rtpengine"@,
        "gateway"@,
        "cdr"@,
        "registration"@,
        "li"@,
        "diameter"@,
        "presence"@,
        "sbi"@,
        "srs"@,
        "subscribe_state"@,
        "ipsec"@,
        "qos"@,
        "stir"@,
    ];
    assert(names[0] == "proxy"@ && names[1] == "registrar"@ && names[2] == "auth"@ && names[3]
        == "log"@ && names[4] == "cache"@ && names[5] == "metrics"@ && names[6] == "sdp"@
        && names[7] == "timer"@ && names[8] == "isc"@ && names[9] == "b2bua"@ && names[10]
        == "rtpengine"@ && names[11] == "gateway"@ && names[12] == "cdr"@ && names[13]
        == "registration"@ && names[14] == "li"@ && names[15] == "diameter"@ && names[16]
        == "presence"@ && names[17] == "sbi"@ && names[18] == "srs"@ && names[19]
        == "subscribe_state"@ && names[20] == "ipsec"@ && names[21] == "qos"@ && names[22]
        == "stir"@);
}

/// The first object that is set in a slot stays there; setting one leaves the
/// other slots alone.
pub proof fn first_object_of_a_slot_stays(
    slots: &mut Singletons,
    slot: Slot,
    object: u64,
    after: Singletons,
    set: bool,
    i: int,
)
    requires
        old(slots).wf(),
        call_ensures(Singletons::set_singleton, (slots, slot, object), ()),
        call_ensures(Singletons::is_set, (&after, slot), set),
    ensures
        after == *final(slots) ==> set,
        0 <= i < old(slots)@.len() ==> i < final(slots)@.len() && final(slots)@[i]
            == old(slots)@[i],
        (forall|j: int| 0 <= j < old(slots)@.len() ==> (#[trigger] old(slots)@[j]).0 != slot)
            ==> final(slots)@ == old(slots)@.push((slot, object)),
        0 <= i < old(slots)@.len() && old(slots)@[i].0 == slot ==> final(slots)@ == old(slots)@,
{
    if !occupied(old(slots)@, slot) {
        assert(final(slots)@[old(slots)@.len() as int] == (slot, object));
    }
}

} // verus!
