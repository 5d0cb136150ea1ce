//! Laws of the values that pass between a script and the library.

use crate::error::{ErrorText, ScriptError};
use crate::pyvalue::{
    as_int, entries_text, entry, ints_of, items_text, string_map, texts_of, to_string_map, PyText,
    PyValue,
};
use crate::text::{assoc, pairs_text, put_value_is_found, texts};
use vstd::prelude::*;
use vstd::string::*;

verus! {

/// An optional number as a script sees it.
pub open spec fn told_number(n: Option<u32>) -> PyText {
    match n {
        Some(n) => PyText::Int(n as int),
        None => PyText::Nothing,
    }
}

/// An optional text as a script sees it.
pub open spec fn told_text(s: Option<String>) -> PyText {
    match s {
        Some(s) => PyText::Text(s@),
        None => PyText::Nothing,
    }
}

/// The value of the first pair of a dict with a key is the value under the key.
pub open spec fn first_under(d: Seq<(Seq<char>, PyText)>, i: int, key: Seq<char>) -> bool {
    0 <= i < d.len() && d[i].0 == key && forall|j: int| 0 <= j < i ==> (#[trigger] d[j]).0 != key
}

proof fn lemma_entry_is_first(d: Seq<(Seq<char>, PyText)>, key: Seq<char>)
    ensures
        match entry(d, key) {
            Some(value) => exists|i: int| #[trigger] first_under(d, i, key) && d[i].1 == value,
            None => forall|i: int| 0 <= i < d.len() ==> (#[trigger] d[i]).0 != key,
        },
    decreases d.len(),
{
    if d.len() > 0 {
        let rest = d.skip(1);
        if d[0].0 == key {
            assert(first_under(d, 0, key));
        } else {
            lemma_entry_is_first(rest, key);
            match entry(rest, key) {
                Some(value) => {
                    let i = choose|i: int| #[trigger]
                        first_under(rest, i, key) && rest[i].1 == value;
                    assert forall|j: int| 0 <= j < i + 1 implies (#[trigger] d[j]).0 != key by {
                        if j > 0 {
                            assert(rest[j - 1] == d[j]);
                        }
                    }
                    assert(first_under(d, i + 1, key));
                },
                None => {
                    assert forall|j: int| 0 <= j < d.len() implies (#[trigger] d[j]).0 != key by {
                        if j > 0 {
                            assert(rest[j - 1] == d[j]);
                        }
                    }
                },
            }
        }
    }
}

/// What a dict holds under a key is the value of the first pair with that key,
/// and nothing where no pair has it.
pub proof fn item_is_the_one_under_its_key(
    pairs: Vec<(String, PyValue)>,
    value: PyValue,
    key: &str,
    found: Option<&PyValue>,
)
    requires
        call_ensures(PyValue::dict, (pairs,), value),
        call_ensures(PyValue::get_item, (&value, key), found),
    ensures
        match found {
            Some(item) => exists|i: int|
                0 <= i < pairs@.len() && (#[trigger] pairs@[i]).0@ == key@ && pairs@[i].1@ == item@
                    && forall|j: int| 0 <= j < i ==> (#[trigger] pairs@[j]).0@ != key@,
            None => forall|i: int| 0 <= i < pairs@.len() ==> (#[trigger] pairs@[i]).0@ != key@,
        },
{
    let d = entries_text(pairs@);
    assert(d.len() == pairs@.len());
    assert forall|i: int| 0 <= i < pairs@.len() implies d[i] == ((#[trigger] pairs@[i]).0@, pairs@[i].1@) by {}
    lemma_entry_is_first(d, key@);
    match found {
        Some(item) => {
            let i = choose|i: int| #[trigger] first_under(d, i, key@) && d[i].1 == item@;
            assert(pairs@[i].0@ == key@);
            assert forall|j: int| 0 <= j < i implies (#[trigger] pairs@[j]).0@ != key@ by {
                assert(d[j].0 != key@);
            }
        },
        None => {
            assert forall|i: int| 0 <= i < pairs@.len() implies (#[trigger] pairs@[i]).0@ != key@ by {
                assert(d[i].0 != key@);
            }
        },
    }
}

/// Numbers are read item by item.
pub proof fn lemma_ints_in_order(v: Seq<PyText>, high: int)
    ensures
        ints_of(v, high) matches Ok(ns) ==> ns.len() == v.len() && forall|i: int|
            0 <= i < v.len() ==> as_int(#[trigger] v[i], 0, high) == Ok::<
                int,
                ErrorText,
            >(ns[i]),
    decreases v.len(),
{
    if v.len() > 0 {
        lemma_ints_in_order(v.drop_last(), high);
        if ints_of(v, high) is Ok {
            let ns = ints_of(v, high)->Ok_0;
            assert forall|i: int| 0 <= i < v.len() implies as_int(#[trigger] v[i], 0, high) == Ok::<
                int,
                ErrorText,
            >(ns[i]) by {
                if i < v.len() - 1 {
                    assert(v.drop_last()[i] == v[i]);
                }
            }
        }
    }
}

/// Texts are read item by item.
pub proof fn lemma_texts_in_order(v: Seq<PyText>)
    ensures
        texts_of(v) matches Ok(ts) ==> ts.len() == v.len() && forall|i: int|
            0 <= i < v.len() ==> #[trigger] v[i] == PyText::Text(ts[i]),
    decreases v.len(),
{
    if v.len() > 0 {
        lemma_texts_in_order(v.drop_last());
        if texts_of(v) is Ok {
            let ts = texts_of(v)->Ok_0;
            assert forall|i: int| 0 <= i < v.len() implies #[trigger] v[i] == PyText::Text(
                ts[i],
            ) by {
                if i < v.len() - 1 {
                    assert(v.drop_last()[i] == v[i]);
                }
            }
        }
    }
}

/// Whether a script's value stands for a whole number: an integer for itself, a
/// truth value for one or nought.
pub open spec fn means(value: PyText, n: int) -> bool {
    value == PyText::Int(n) || (value == PyText::Bool(true) && n == 1) || (value == PyText::Bool(
        false,
    ) && n == 0)
}

/// A list or tuple of numbers is read item by item, in its order.
pub proof fn numbers_are_read_in_order(value: PyValue, items: Seq<PyText>, read: Vec<u32>)
    requires
        value@ == PyText::List(items) || value@ == PyText::Tuple(items),
        call_ensures(PyValue::as_u32s, (&value,), Ok(read)),
    ensures
        read@.len() == items.len(),
        forall|i: int| 0 <= i < items.len() ==> means(#[trigger] items[i], read@[i] as int),
{
    lemma_ints_in_order(items, u32::MAX as int);
    let ns = ints_of(items, u32::MAX as int)->Ok_0;
    assert(ns == Seq::new(read@.len(), |i: int| read@[i] as int));
    assert forall|i: int| 0 <= i < items.len() implies means(#[trigger] items[i], read@[i] as int) by {
        assert(ns[i] == read@[i]);
    }
}

/// A list or tuple of octets is read item by item, in its order; a value of
/// bytes is read as it is.
pub proof fn octets_are_read_in_order(value: PyValue, read: Vec<u8>)
    requires
        call_ensures(PyValue::as_bytes, (&value,), Ok(read)),
    ensures
        match value@ {
            PyText::Bytes(b) => read@ == b,
            PyText::List(items) | PyText::Tuple(items) => {
                &&& read@.len() == items.len()
                &&& forall|i: int|
                    0 <= i < items.len() ==> means(#[trigger] items[i], read@[i] as int)
            },
            _ => false,
        },
{
    let items = match value@ {
        PyText::List(items) => items,
        PyText::Tuple(items) => items,
        _ => Seq::empty(),
    };
    if value@ is List || value@ is Tuple {
        lemma_ints_in_order(items, 255);
        let ns = ints_of(items, 255)->Ok_0;
        assert forall|i: int| 0 <= i < items.len() implies means(
            #[trigger] items[i],
            read@[i] as int,
        ) by {
            assert(read@[i] == ns[i] as u8);
        }
    }
}

/// A list or tuple of texts is read item by item, in its order.
pub proof fn texts_are_read_in_order(value: PyValue, items: Seq<PyText>, read: Vec<String>)
    requires
        value@ == PyText::List(items) || value@ == PyText::Tuple(items),
        call_ensures(PyValue::as_texts, (&value,), Ok(read)),
    ensures
        read@.len() == items.len(),
        forall|i: int| 0 <= i < items.len() ==> #[trigger] items[i] == PyText::Text(read@[i]@),
{
    lemma_texts_in_order(items);
    let ts = texts_of(items)->Ok_0;
    assert(ts == texts(read@));
    assert(texts(read@).len() == read@.len());
    assert forall|i: int| 0 <= i < items.len() implies #[trigger] items[i] == PyText::Text(
        read@[i]@,
    ) by {
        assert(ts[i] == read@[i]@);
    }
}

/// A number is read as itself where it lies in the range asked for, and only
/// there; a truth value as one or nought; nothing else is read as a number.
pub proof fn number_is_read_as_itself(
    value: PyValue,
    low: i128,
    high: i128,
    outcome: Result<i128, ScriptError>,
)
    requires
        low <= 0,
        1 <= high,
        call_ensures(PyValue::as_int, (&value, low, high), outcome),
    ensures
        outcome matches Ok(n) ==> means(value@, n as int) && low <= n <= high,
        outcome is Ok <==> match value@ {
            PyText::Int(n) => low <= n <= high,
            PyText::Bool(_) => true,
            _ => false,
        },
{
}

/// What a dict of texts holds under a key is what its last item with that key holds.
pub proof fn lemma_map_holds(items: Seq<(PyText, PyText)>, key: Seq<char>)
    ensures
        string_map(items) matches Ok(pairs) ==> {
            &&& forall|i: int|
                0 <= i < items.len() ==> (#[trigger] items[i]).0 is Text && items[i].1 is Text
            &&& match assoc(pairs, key) {
                Some(value) => exists|i: int|
                    0 <= i < items.len() && #[trigger] items[i] == (
                        PyText::Text(key),
                        PyText::Text(value),
                    ) && forall|j: int|
                        i < j < items.len() ==> (#[trigger] items[j]).0 != PyText::Text(key),
                None => forall|i: int|
                    0 <= i < items.len() ==> (#[trigger] items[i]).0 != PyText::Text(key),
            }
        },
    decreases items.len(),
{
    if items.len() > 0 && string_map(items) is Ok {
        let before = items.drop_last();
        lemma_map_holds(before, key);
        let pairs = string_map(before)->Ok_0;
        let k = items.last().0->Text_0;
        let v = items.last().1->Text_0;
        put_value_is_found(pairs, k, v, key);
        assert forall|i: int| 0 <= i < items.len() implies (#[trigger] items[i]).0 is Text
            && items[i].1 is Text by {
            if i < before.len() {
                assert(before[i] == items[i]);
            }
        }
        if k == key {
            assert(items[items.len() - 1] == (PyText::Text(key), PyText::Text(v)));
        } else {
            match assoc(pairs, key) {
                Some(value) => {
                    let i = choose|i: int|
                        0 <= i < before.len() && #[trigger] before[i] == (
                            PyText::Text(key),
                            PyText::Text(value),
                        ) && forall|j: int|
                            i < j < before.len() ==> (#[trigger] before[j]).0 != PyText::Text(key);
                    assert(items[i] == before[i]);
                    assert forall|j: int| i < j < items.len() implies (#[trigger] items[j]).0
                        != PyText::Text(key) by {
                        if j < before.len() {
                            assert(before[j] == items[j]);
                        }
                    }
                },
                None => {
                    assert forall|i: int| 0 <= i < items.len() implies (#[trigger] items[i]).0
                        != PyText::Text(key) by {
                        if i < before.len() {
                            assert(before[i] == items[i]);
                        }
                    }
                },
            }
        }
    }
}

/// A dict of texts is read key by key: what is read under a key is what its last
/// item with that key holds, and a key is there exactly where an item has it.
pub proof fn text_map_is_read_by_its_keys(
    items: Vec<(PyValue, PyValue)>,
    read: Vec<(String, String)>,
    key: Seq<char>,
)
    requires
        call_ensures(to_string_map, (&items,), Ok(read)),
    ensures
        match assoc(pairs_text(read@), key) {
            Some(value) => exists|i: int|
                0 <= i < items@.len() && #[trigger] items_text(items@)[i] == (
                    PyText::Text(key),
                    PyText::Text(value),
                ) && forall|j: int|
                    i < j < items@.len() ==> (#[trigger] items_text(items@)[j]).0 != PyText::Text(
                        key,
                    ),
            None => forall|i: int|
                0 <= i < items@.len() ==> (#[trigger] items_text(items@)[i]).0 != PyText::Text(key),
        },
{
    lemma_map_holds(items_text(items@), key);
    assert(items_text(items@).len() == items@.len());
}

} // verus!
