//! Laws of the records that are being kept.

use crate::call::PyCall;
use crate::cdr::{
    kept_at, kept_text, merged, write_cdr, Cdr, CdrFields, CdrSource, KeptCdr, PyCdrNamespace,
    RfSession, WriteStep,
};
use crate::cdr::extra_fields;
use crate::error::ScriptError;
use crate::laws::records::lemma_merged_keeps;
use crate::pyvalue::PyValue;
use crate::request::PyRequest;
use crate::text::{assoc, pairs_text, texts};
use vstd::prelude::*;
use vstd::string::*;

verus! {

proof fn lemma_kept_at(
    kept: Seq<(Seq<char>, Seq<(Seq<char>, Seq<char>)>)>,
    keys: Seq<Seq<char>>,
)
    ensures
        ({
            let at = kept_at(kept, keys);
            &&& -1 <= at < kept.len()
            &&& at >= 0 ==> keys.contains(kept[at].0)
            &&& forall|j: int|
                0 <= j < (if at >= 0 {
                    at
                } else {
                    kept.len() as int
                }) ==> !keys.contains((#[trigger] kept[j]).0)
        }),
    decreases kept.len(),
{
    if kept.len() > 0 {
        let before = kept.drop_last();
        lemma_kept_at(before, keys);
        let at = kept_at(kept, keys);
        let bound = if at >= 0 {
            at
        } else {
            kept.len() as int
        };
        assert forall|j: int| 0 <= j < bound implies !keys.contains((#[trigger] kept[j]).0) by {
            if j < before.len() {
                assert(before[j] == kept[j]);
            }
        }
        if 0 <= at < before.len() {
            assert(before[at] == kept[at]);
        }
    }
}

/// Whether a record is the first that is kept under one of the given keys.
pub open spec fn first_kept(kept: Seq<KeptCdr>, keys: Seq<Seq<char>>, i: int) -> bool {
    &&& 0 <= i < kept.len()
    &&& keys.contains(kept[i].key@)
    &&& forall|j: int| 0 <= j < i ==> !keys.contains((#[trigger] kept[j]).key@)
}

/// Whether no record is kept under any of the given keys.
pub open spec fn none_kept(kept: Seq<KeptCdr>, keys: Seq<Seq<char>>) -> bool {
    forall|j: int| 0 <= j < kept.len() ==> !keys.contains((#[trigger] kept[j]).key@)
}

proof fn lemma_first_kept(kept: Seq<KeptCdr>, keys: Seq<Seq<char>>, i: int)
    ensures
        first_kept(kept, keys, i) ==> kept_at(kept_text(kept), keys) == i,
        none_kept(kept, keys) ==> kept_at(kept_text(kept), keys) < 0,
{
    let all = kept_text(kept);
    lemma_kept_at(all, keys);
    let at = kept_at(all, keys);
    assert forall|j: int| 0 <= j < kept.len() implies (#[trigger] all[j]).0 == kept[j].key@ by {}
    if first_kept(kept, keys, i) {
        if at < 0 || i < at {
            assert(!keys.contains(all[i].0));
        }
        if 0 <= at < i {
            assert(all[at].0 == kept[at].key@);
        }
    }
    if none_kept(kept, keys) && at >= 0 {
        assert(all[at].0 == kept[at].key@);
    }
}

/// What is merged goes into the first record that is kept under one of the keys:
/// each field that was given last under its name stands there, the other fields
/// and the other records stay. Without such a record nothing changes.
pub proof fn fields_are_merged_into_their_record(
    cdrs: &mut PyCdrNamespace,
    keys: Vec<String>,
    extra: Vec<(String, String)>,
    done: bool,
    i: int,
    j: int,
    k: int,
    other: Seq<char>,
)
    requires
        call_ensures(PyCdrNamespace::merge_extra_into_session, (cdrs, &keys, &extra), done),
        0 <= j < old(cdrs).kept@.len(),
        j != i,
    ensures
        final(cdrs).enabled == old(cdrs).enabled,
        final(cdrs).kept@.len() == old(cdrs).kept@.len(),
        none_kept(old(cdrs).kept@, texts(keys@)) ==> !done && kept_text(final(cdrs).kept@)
            == kept_text(old(cdrs).kept@),
        first_kept(old(cdrs).kept@, texts(keys@), i) ==> {
            &&& done
            &&& final(cdrs).kept@[j].key@ == old(cdrs).kept@[j].key@
            &&& pairs_text(final(cdrs).kept@[j].extra@) == pairs_text(old(cdrs).kept@[j].extra@)
            &&& final(cdrs).kept@[i].key@ == old(cdrs).kept@[i].key@
            &&& 0 <= k < extra@.len() && (forall|m: int|
                k < m < extra@.len() ==> (#[trigger] extra@[m]).0@ != extra@[k].0@) ==> assoc(
                pairs_text(final(cdrs).kept@[i].extra@),
                extra@[k].0@,
            ) == Some(extra@[k].1@)
            &&& (forall|m: int| 0 <= m < extra@.len() ==> (#[trigger] extra@[m]).0@ != other)
                ==> assoc(pairs_text(final(cdrs).kept@[i].extra@), other) == assoc(
                pairs_text(old(cdrs).kept@[i].extra@),
                other,
            )
        },
{
    let before = kept_text(old(cdrs).kept@);
    let after = kept_text(final(cdrs).kept@);
    let added = pairs_text(extra@);
    lemma_first_kept(old(cdrs).kept@, texts(keys@), i);
    assert(before.len() == old(cdrs).kept@.len() && after.len() == final(cdrs).kept@.len());
    if first_kept(old(cdrs).kept@, texts(keys@), i) {
        assert(after[j] == before[j]);
        assert(after[j] == (final(cdrs).kept@[j].key@, pairs_text(final(cdrs).kept@[j].extra@)));
        assert(before[j] == (old(cdrs).kept@[j].key@, pairs_text(old(cdrs).kept@[j].extra@)));
        assert(after[i] == (final(cdrs).kept@[i].key@, pairs_text(final(cdrs).kept@[i].extra@)));
        assert(before[i] == (old(cdrs).kept@[i].key@, pairs_text(old(cdrs).kept@[i].extra@)));
        assert(after[i] == (before[i].0, merged(before[i].1, added)));
        lemma_merged_keeps(before[i].1, added, other);
        if forall|m: int| 0 <= m < extra@.len() ==> (#[trigger] extra@[m]).0@ != other {
            assert forall|m: int| 0 <= m < added.len() implies (#[trigger] added[m]).0 != other by {
                assert(added[m].0 == extra@[m].0@);
            }
        }
        if 0 <= k < extra@.len() && (forall|m: int|
            k < m < extra@.len() ==> (#[trigger] extra@[m]).0@ != extra@[k].0@) {
            lemma_merged_keeps(before[i].1, added, extra@[k].0@);
            assert(added[k] == (extra@[k].0@, extra@[k].1@));
            assert forall|m: int| k < m < added.len() implies (#[trigger] added[m]).0
                != extra@[k].0@ by {
                assert(added[m].0 == extra@[m].0@);
            }
        }
    }
}

/// What a script writes of a call goes nowhere while records are off, into the
/// record that is kept for the call where there is one, and else into a record
/// of its own, made of what the call shows.
pub proof fn written_fields_go_to_the_record_of_the_call(
    cdrs: &mut PyCdrNamespace,
    call: PyCall,
    charging_key: Option<String>,
    extra: Option<&Vec<(PyValue, PyValue)>>,
    sessions: Vec<RfSession>,
    step: Result<WriteStep, ScriptError>,
    fields: CdrFields,
    added: Vec<(String, String)>,
    own: Cdr,
    i: int,
)
    requires
        call_ensures(
            PyCdrNamespace::write,
            (cdrs, CdrSource::Call(&call), charging_key, extra, &sessions),
            step,
        ),
        call_ensures(CdrFields::from_call, (&call, charging_key), fields),
        call_ensures(extra_fields, (extra,), added),
        call_ensures(write_cdr, (fields, &sessions, &added), own),
    ensures
        step is Ok,
        !old(cdrs).enabled ==> step->Ok_0 is Disabled && kept_text(final(cdrs).kept@) == kept_text(
            old(cdrs).kept@,
        ),
        old(cdrs).enabled && first_kept(old(cdrs).kept@, texts(fields.session_keys@), i)
            ==> step->Ok_0 is Merged,
        old(cdrs).enabled && none_kept(old(cdrs).kept@, texts(fields.session_keys@))
            ==> (step->Ok_0 matches WriteStep::Standalone(record) && record@ == own@) && kept_text(
            final(cdrs).kept@,
        ) == kept_text(old(cdrs).kept@),
{
    lemma_first_kept(old(cdrs).kept@, texts(fields.session_keys@), i);
}

/// What a script writes of a request goes as what it writes of a call.
pub proof fn written_fields_go_to_the_record_of_the_request(
    cdrs: &mut PyCdrNamespace,
    request: PyRequest,
    charging_key: Option<String>,
    extra: Option<&Vec<(PyValue, PyValue)>>,
    sessions: Vec<RfSession>,
    step: Result<WriteStep, ScriptError>,
    fields: CdrFields,
    added: Vec<(String, String)>,
    own: Cdr,
    i: int,
)
    requires
        call_ensures(
            PyCdrNamespace::write,
            (cdrs, CdrSource::Request(&request), charging_key, extra, &sessions),
            step,
        ),
        call_ensures(CdrFields::from_request, (&request, charging_key), fields),
        call_ensures(extra_fields, (extra,), added),
        call_ensures(write_cdr, (fields, &sessions, &added), own),
    ensures
        step is Ok,
        !old(cdrs).enabled ==> step->Ok_0 is Disabled && kept_text(final(cdrs).kept@) == kept_text(
            old(cdrs).kept@,
        ),
        old(cdrs).enabled && first_kept(old(cdrs).kept@, texts(fields.session_keys@), i)
            ==> step->Ok_0 is Merged,
        old(cdrs).enabled && none_kept(old(cdrs).kept@, texts(fields.session_keys@))
            ==> (step->Ok_0 matches WriteStep::Standalone(record) && record@ == own@) && kept_text(
            final(cdrs).kept@,
        ) == kept_text(old(cdrs).kept@),
{
    lemma_first_kept(old(cdrs).kept@, texts(fields.session_keys@), i);
}

} // verus!
