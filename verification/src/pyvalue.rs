//! Values that cross the boundary to scripts.
//!
//! A script value is read into this form before the library sees it. The
//! conversions to numbers, text and lists follow the rules of the scripting
//! language: a truth value counts as a number, bytes count as a list of numbers.

use crate::error::{overflow_error, type_error, ErrorText, ScriptError};
use crate::text::{pairs_text, put, put_pair, same_text, texts};
use vstd::prelude::*;
use vstd::string::*;

verus! {

/// A script value. A floating-point number is kept as its bit pattern.
pub enum PyValue {
    Nothing,
    Bool(bool),
    Int(i128),
    Float(u64),
    Text(String),
    Bytes(Vec<u8>),
    List(Vec<PyValue>),
    Tuple(Vec<PyValue>),
    Dict(Vec<(String, PyValue)>),
    /// A value of another kind, by the name of its type.
    Other(String),
}

/// A script value as mathematical data.
pub enum PyText {
    Nothing,
    Bool(bool),
    Int(int),
    Float(u64),
    Text(Seq<char>),
    Bytes(Seq<u8>),
    List(Seq<PyText>),
    Tuple(Seq<PyText>),
    Dict(Seq<(Seq<char>, PyText)>),
    Other(Seq<char>),
}

pub open spec fn py_text(p: PyValue) -> PyText
    decreases p,
{
    match p {
        PyValue::Nothing => PyText::Nothing,
        PyValue::Bool(b) => PyText::Bool(b),
        PyValue::Int(n) => PyText::Int(n as int),
        PyValue::Float(bits) => PyText::Float(bits),
        PyValue::Text(s) => PyText::Text(s@),
        PyValue::Bytes(b) => PyText::Bytes(b@),
        PyValue::List(v) => PyText::List(py_texts(v, v@.len())),
        PyValue::Tuple(v) => PyText::Tuple(py_texts(v, v@.len())),
        PyValue::Dict(v) => PyText::Dict(py_pairs(v, v@.len())),
        PyValue::Other(name) => PyText::Other(name@),
    }
}

/// The first `n` values of a list.
pub open spec fn py_texts(v: Vec<PyValue>, n: nat) -> Seq<PyText>
    decreases v, n,
{
    if n == 0 || n > v@.len() {
        Seq::empty()
    } else {
        py_texts(v, (n - 1) as nat).push(py_text(v[n - 1]))
    }
}

/// The first `n` entries of a dict.
pub open spec fn py_pairs(v: Vec<(String, PyValue)>, n: nat) -> Seq<(Seq<char>, PyText)>
    decreases v, n,
{
    if n == 0 || n > v@.len() {
        Seq::empty()
    } else {
        py_pairs(v, (n - 1) as nat).push((v[n - 1].0@, py_text(v[n - 1].1)))
    }
}

pub proof fn lemma_py_texts(v: Vec<PyValue>, n: nat)
    requires
        n <= v@.len(),
    ensures
        py_texts(v, n).len() == n,
        forall|i: int| 0 <= i < n ==> #[trigger] py_texts(v, n)[i] == py_text(v[i]),
    decreases n,
{
    if n > 0 {
        lemma_py_texts(v, (n - 1) as nat);
    }
}

pub proof fn lemma_py_pairs(v: Vec<(String, PyValue)>, n: nat)
    requires
        n <= v@.len(),
    ensures
        py_pairs(v, n).len() == n,
        forall|i: int| 0 <= i < n ==> #[trigger] py_pairs(v, n)[i] == (v[i].0@, py_text(v[i].1)),
    decreases n,
{
    if n > 0 {
        lemma_py_pairs(v, (n - 1) as nat);
    }
}

impl View for PyValue {
    type V = PyText;

    open spec fn view(&self) -> PyText {
        py_text(*self)
    }
}

/// The values that a list of script values holds.
pub open spec fn values_text(v: Seq<PyValue>) -> Seq<PyText> {
    Seq::new(v.len(), |i: int| v[i]@)
}

pub proof fn lemma_list_text(v: Vec<PyValue>)
    ensures
        py_texts(v, v@.len()) == values_text(v@),
{
    lemma_py_texts(v, v@.len());
    assert(py_texts(v, v@.len()) =~= values_text(v@));
}

/// The entries that a list of named script values holds.
pub open spec fn entries_text(v: Seq<(String, PyValue)>) -> Seq<(Seq<char>, PyText)> {
    Seq::new(v.len(), |i: int| (v[i].0@, v[i].1@))
}

pub proof fn lemma_dict_text(v: Vec<(String, PyValue)>)
    ensures
        py_pairs(v, v@.len()) == entries_text(v@),
{
    lemma_py_pairs(v, v@.len());
    assert(py_pairs(v, v@.len()) =~= entries_text(v@));
}

/// The name of a value's type.
pub open spec fn kind_name(p: PyText) -> Seq<char> {
    match p {
        PyText::Nothing => "NoneType"@,
        PyText::Bool(_) => "bool"@,
        PyText::Int(_) => "int"@,
        PyText::Float(_) => "float"@,
        PyText::Text(_) => "str"@,
        PyText::Bytes(_) => "bytes"@,
        PyText::List(_) => "list"@,
        PyText::Tuple(_) => "tuple"@,
        PyText::Dict(_) => "dict"@,
        PyText::Other(name) => name,
    }
}

/// A value as a whole number from `low` up to `high`.
pub open spec fn as_int(p: PyText, low: int, high: int) -> Result<int, ErrorText> {
    match p {
        PyText::Int(n) => if low <= n <= high {
            Ok(n)
        } else {
            Err(overflow_error("out of range integral type conversion attempted"@))
        },
        PyText::Bool(b) => Ok(
            if b {
                1
            } else {
                0
            },
        ),
        _ => Err(
            type_error("'"@ + kind_name(p) + "' object cannot be interpreted as an integer"@),
        ),
    }
}

pub open spec fn as_u32(p: PyText) -> Result<int, ErrorText> {
    as_int(p, 0, u32::MAX as int)
}

/// A value as text.
pub open spec fn as_text(p: PyText) -> Result<Seq<char>, ErrorText> {
    match p {
        PyText::Text(s) => Ok(s),
        _ => Err(type_error("'"@ + kind_name(p) + "' object cannot be cast as 'str'"@)),
    }
}

/// A value as a truth value.
pub open spec fn as_bool(p: PyText) -> Result<bool, ErrorText> {
    match p {
        PyText::Bool(b) => Ok(b),
        _ => Err(type_error("'"@ + kind_name(p) + "' object cannot be cast as 'bool'"@)),
    }
}

/// The items of a sequence value; bytes are a sequence of numbers.
pub open spec fn items_of(p: PyText) -> Result<Seq<PyText>, ErrorText> {
    match p {
        PyText::List(v) => Ok(v),
        PyText::Tuple(v) => Ok(v),
        PyText::Bytes(b) => Ok(Seq::new(b.len(), |i: int| PyText::Int(b[i] as int))),
        PyText::Text(_) => Err(type_error("Can't extract `str` to `Vec`"@)),
        _ => Err(type_error("'"@ + kind_name(p) + "' object is not an instance of 'Sequence'"@)),
    }
}

/// The whole numbers of a sequence, or the error of the first that is none.
pub open spec fn ints_of(v: Seq<PyText>, high: int) -> Result<Seq<int>, ErrorText>
    decreases v.len(),
{
    if v.len() == 0 {
        Ok(Seq::empty())
    } else {
        match ints_of(v.drop_last(), high) {
            Err(e) => Err(e),
            Ok(before) => match as_int(v.last(), 0, high) {
                Err(e) => Err(e),
                Ok(n) => Ok(before.push(n)),
            },
        }
    }
}

/// A value as a list of whole numbers up to `high`.
pub open spec fn as_ints(p: PyText, high: int) -> Result<Seq<int>, ErrorText> {
    match items_of(p) {
        Ok(v) => ints_of(v, high),
        Err(e) => Err(e),
    }
}

/// A value as a byte string: bytes, or a list of numbers below 256.
pub open spec fn as_bytes(p: PyText) -> Result<Seq<u8>, ErrorText> {
    match p {
        PyText::Bytes(b) => Ok(b),
        _ => match as_ints(p, 255) {
            Ok(v) => Ok(Seq::new(v.len(), |i: int| v[i] as u8)),
            Err(e) => Err(e),
        },
    }
}

/// The texts of a sequence, or the error of the first value that is none.
pub open spec fn texts_of(v: Seq<PyText>) -> Result<Seq<Seq<char>>, ErrorText>
    decreases v.len(),
{
    if v.len() == 0 {
        Ok(Seq::empty())
    } else {
        match texts_of(v.drop_last()) {
            Err(e) => Err(e),
            Ok(before) => match as_text(v.last()) {
                Err(e) => Err(e),
                Ok(s) => Ok(before.push(s)),
            },
        }
    }
}

/// A value as a list of texts.
pub open spec fn as_texts(p: PyText) -> Result<Seq<Seq<char>>, ErrorText> {
    match items_of(p) {
        Ok(v) => texts_of(v),
        Err(e) => Err(e),
    }
}

/// The value under a key of a dict.
pub open spec fn entry(d: Seq<(Seq<char>, PyText)>, key: Seq<char>) -> Option<PyText>
    decreases d.len(),
{
    if d.len() == 0 {
        None
    } else if d[0].0 == key {
        Some(d[0].1)
    } else {
        entry(d.skip(1), key)
    }
}

/// A dict after an assignment: in place where the key is there, else at the end.
pub open spec fn assigned(d: Seq<(Seq<char>, PyText)>, key: Seq<char>, value: PyText) -> Seq<
    (Seq<char>, PyText),
>
    decreases d.len(),
{
    if d.len() == 0 {
        seq![(key, value)]
    } else if d[0].0 == key {
        seq![(key, value)] + d.skip(1)
    } else {
        seq![d[0]] + assigned(d.skip(1), key, value)
    }
}

/// What was assigned is what a lookup finds, and other keys are untouched.
pub proof fn assigned_entry_is_found(
    d: Seq<(Seq<char>, PyText)>,
    key: Seq<char>,
    value: PyText,
    other: Seq<char>,
)
    ensures
        entry(assigned(d, key, value), key) == Some(value),
        other != key ==> entry(assigned(d, key, value), other) == entry(d, other),
    decreases d.len(),
{
    let r = assigned(d, key, value);
    if d.len() == 0 {
        assert(r.skip(1) =~= d);
    } else if d[0].0 == key {
        assert(r.skip(1) =~= d.skip(1));
    } else {
        assigned_entry_is_found(d.skip(1), key, value, other);
        assert(r.skip(1) =~= assigned(d.skip(1), key, value));
    }
}

impl PyValue {
    pub fn text(s: &str) -> (r: Self)
        ensures
            r@ == PyText::Text(s@),
    {
        PyValue::Text(s.to_owned())
    }

    pub fn opt_text(s: Option<String>) -> (r: Self)
        ensures
            r@ == match s {
                Some(s) => PyText::Text(s@),
                None => PyText::Nothing,
            },
    {
        match s {
            Some(s) => PyValue::Text(s),
            None => PyValue::Nothing,
        }
    }

    pub fn opt_u32(n: Option<u32>) -> (r: Self)
        ensures
            r@ == match n {
                Some(n) => PyText::Int(n as int),
                None => PyText::Nothing,
            },
    {
        match n {
            Some(n) => PyValue::Int(n as i128),
            None => PyValue::Nothing,
        }
    }

    pub fn list(v: Vec<PyValue>) -> (r: Self)
        ensures
            r@ == PyText::List(values_text(v@)),
    {
        proof {
            lemma_list_text(v);
        }
        PyValue::List(v)
    }

    pub fn tuple(v: Vec<PyValue>) -> (r: Self)
        ensures
            r@ == PyText::Tuple(values_text(v@)),
    {
        proof {
            lemma_list_text(v);
        }
        PyValue::Tuple(v)
    }

    pub fn dict(v: Vec<(String, PyValue)>) -> (r: Self)
        ensures
            r@ == PyText::Dict(entries_text(v@)),
    {
        proof {
            lemma_dict_text(v);
        }
        PyValue::Dict(v)
    }

    pub fn kind_name(&self) -> (r: String)
        ensures
            r@ == kind_name(self@),
    {
        match self {
            PyValue::Nothing => "NoneType".to_owned(),
            PyValue::Bool(_) => "bool".to_owned(),
            PyValue::Int(_) => "int".to_owned(),
            PyValue::Float(_) => "float".to_owned(),
            PyValue::Text(_) => "str".to_owned(),
            PyValue::Bytes(_) => "bytes".to_owned(),
            PyValue::List(_) => "list".to_owned(),
            PyValue::Tuple(_) => "tuple".to_owned(),
            PyValue::Dict(_) => "dict".to_owned(),
            PyValue::Other(name) => name.clone(),
        }
    }

    pub fn is_nothing(&self) -> (r: bool)
        ensures
            r == (self@ is Nothing),
    {
        match self {
            PyValue::Nothing => true,
            _ => false,
        }
    }

    /// The value as a whole number from `low` up to `high`.
    pub fn as_int(&self, low: i128, high: i128) -> (r: Result<i128, ScriptError>)
        requires
            low <= 0,
            1 <= high,
        ensures
            match r {
                Ok(n) => as_int(self@, low as int, high as int) == Ok::<int, ErrorText>(n as int)
                    && low <= n <= high,
                Err(e) => as_int(self@, low as int, high as int) == Err::<int, ErrorText>(e@),
            },
    {
        match self {
            PyValue::Int(n) => {
                if low <= *n && *n <= high {
                    Ok(*n)
                } else {
                    Err(
                        ScriptError::overflow(
                            "out of range integral type conversion attempted".to_owned(),
                        ),
                    )
                }
            },
            PyValue::Bool(b) => Ok(
                if *b {
                    1
                } else {
                    0
                },
            ),
            _ => Err(
                ScriptError::type_(
                    "'".to_owned().concat(&self.kind_name()).concat(
                        "' object cannot be interpreted as an integer",
                    ),
                ),
            ),
        }
    }

    pub fn as_u32(&self) -> (r: Result<u32, ScriptError>)
        ensures
            match r {
                Ok(n) => as_u32(self@) == Ok::<int, ErrorText>(n as int),
                Err(e) => as_u32(self@) == Err::<int, ErrorText>(e@),
            },
    {
        match self.as_int(0, u32::MAX as i128) {
            Ok(n) => Ok(n as u32),
            Err(e) => Err(e),
        }
    }

    pub fn as_text(&self) -> (r: Result<String, ScriptError>)
        ensures
            match r {
                Ok(s) => as_text(self@) == Ok::<Seq<char>, ErrorText>(s@),
                Err(e) => as_text(self@) == Err::<Seq<char>, ErrorText>(e@),
            },
    {
        match self {
            PyValue::Text(s) => Ok(s.clone()),
            _ => Err(
                ScriptError::type_(
                    "'".to_owned().concat(&self.kind_name()).concat(
                        "' object cannot be cast as 'str'",
                    ),
                ),
            ),
        }
    }

    pub fn as_bool(&self) -> (r: Result<bool, ScriptError>)
        ensures
            match r {
                Ok(b) => as_bool(self@) == Ok::<bool, ErrorText>(b),
                Err(e) => as_bool(self@) == Err::<bool, ErrorText>(e@),
            },
    {
        match self {
            PyValue::Bool(b) => Ok(*b),
            _ => Err(
                ScriptError::type_(
                    "'".to_owned().concat(&self.kind_name()).concat(
                        "' object cannot be cast as 'bool'",
                    ),
                ),
            ),
        }
    }

    fn sequence_error(&self) -> (r: ScriptError)
        requires
            items_of(self@) is Err,
        ensures
            items_of(self@) == Err::<Seq<PyText>, ErrorText>(r@),
    {
        match self {
            PyValue::Text(_) => ScriptError::type_("Can't extract `str` to `Vec`".to_owned()),
            _ => ScriptError::type_(
                "'".to_owned().concat(&self.kind_name()).concat(
                    "' object is not an instance of 'Sequence'",
                ),
            ),
        }
    }

    /// The value as a list of whole numbers up to `high`.
    fn as_ints(&self, high: u32) -> (r: Result<Vec<u32>, ScriptError>)
        requires
            high >= 255,
        ensures
            match r {
                Ok(v) => as_ints(self@, high as int) == Ok::<Seq<int>, ErrorText>(
                    Seq::new(v@.len(), |i: int| v@[i] as int),
                ) && forall|i: int| 0 <= i < v@.len() ==> #[trigger] v@[i] <= high,
                Err(e) => as_ints(self@, high as int) == Err::<Seq<int>, ErrorText>(e@),
            },
    {
        match self {
            PyValue::List(v) => list_ints(v, high),
            PyValue::Tuple(v) => list_ints(v, high),
            PyValue::Bytes(b) => {
                let ghost items = items_of(self@)->Ok_0;
                let mut out: Vec<u32> = Vec::new();
                let mut i: usize = 0;
                assert(items.take(0) =~= Seq::empty());
                assert(Seq::new(0, |k: int| out@[k] as int) =~= Seq::<int>::empty());
                while i < b.len()
                    invariant
                        i <= b@.len(),
                        high >= 255,
                        items == Seq::new(b@.len(), |k: int| PyText::Int(b@[k] as int)),
                        out@.len() == i,
                        ints_of(items.take(i as int), high as int) == Ok::<Seq<int>, ErrorText>(
                            Seq::new(i as nat, |k: int| out@[k] as int),
                        ),
                        forall|k: int| 0 <= k < i ==> #[trigger] out@[k] <= high,
                    decreases b@.len() - i,
                {
                    let ghost before = out@;
                    assert(items.take(i + 1).drop_last() =~= items.take(i as int));
                    out.push(b[i] as u32);
                    assert(Seq::new(i as nat, |k: int| before[k] as int).push(b@[i as int] as int)
                        =~= Seq::new((i + 1) as nat, |k: int| out@[k] as int));
                    i += 1;
                }
                assert(items.take(b@.len() as int) =~= items);
                Ok(out)
            },
            _ => Err(self.sequence_error()),
        }
    }

    /// The value as a list of 32-bit numbers.
    pub fn as_u32s(&self) -> (r: Result<Vec<u32>, ScriptError>)
        ensures
            match r {
                Ok(v) => as_ints(self@, u32::MAX as int) == Ok::<Seq<int>, ErrorText>(
                    Seq::new(v@.len(), |i: int| v@[i] as int),
                ),
                Err(e) => as_ints(self@, u32::MAX as int) == Err::<Seq<int>, ErrorText>(e@),
            },
    {
        self.as_ints(u32::MAX)
    }

    /// The value as a byte string.
    pub fn as_bytes(&self) -> (r: Result<Vec<u8>, ScriptError>)
        ensures
            match r {
                Ok(b) => as_bytes(self@) == Ok::<Seq<u8>, ErrorText>(b@),
                Err(e) => as_bytes(self@) == Err::<Seq<u8>, ErrorText>(e@),
            },
    {
        match self {
            PyValue::Bytes(b) => {
                let mut out: Vec<u8> = Vec::new();
                out.extend_from_slice(b.as_slice());
                assert(out@ =~= b@);
                Ok(out)
            },
            _ => match self.as_ints(255) {
                Ok(v) => {
                    let mut out: Vec<u8> = Vec::new();
                    let mut i: usize = 0;
                    while i < v.len()
                        invariant
                            i <= v@.len(),
                            out@ == Seq::new(i as nat, |k: int| v@[k] as u8),
                        decreases v@.len() - i,
                    {
                        out.push(v[i] as u8);
                        assert(out@ =~= Seq::new((i + 1) as nat, |k: int| v@[k] as u8));
                        i += 1;
                    }
                    assert(out@ =~= as_bytes(self@)->Ok_0);
                    Ok(out)
                },
                Err(e) => Err(e),
            },
        }
    }

    /// The value as a list of texts.
    pub fn as_texts(&self) -> (r: Result<Vec<String>, ScriptError>)
        ensures
            match r {
                Ok(v) => as_texts(self@) == Ok::<Seq<Seq<char>>, ErrorText>(texts(v@)),
                Err(e) => as_texts(self@) == Err::<Seq<Seq<char>>, ErrorText>(e@),
            },
    {
        match self {
            PyValue::List(v) => list_texts(v),
            PyValue::Tuple(v) => list_texts(v),
            PyValue::Bytes(b) => {
                let ghost items = items_of(self@)->Ok_0;
                if b.len() == 0 {
                    let out: Vec<String> = Vec::new();
                    assert(texts(out@) =~= Seq::<Seq<char>>::empty());
                    assert(items =~= Seq::<PyText>::empty());
                    Ok(out)
                } else {
                    proof {
                        lemma_no_texts(items);
                    }
                    Err(ScriptError::type_("'int' object cannot be cast as 'str'".to_owned()))
                }
            },
            _ => Err(self.sequence_error()),
        }
    }

    /// The value under a key of a dict; none where the value is no dict.
    pub fn get_item(&self, key: &str) -> (r: Option<&PyValue>)
        ensures
            match r {
                Some(value) => self@ matches PyText::Dict(d) && entry(d, key@) == Some(value@),
                None => self@ matches PyText::Dict(d) ==> entry(d, key@) is None,
            },
    {
        match self {
            PyValue::Dict(v) => {
                proof {
                    lemma_dict_text(*v);
                }
                find_entry(v, key)
            },
            _ => None,
        }
    }
}

proof fn lemma_no_texts(items: Seq<PyText>)
    requires
        items.len() > 0,
        forall|i: int| 0 <= i < items.len() ==> (#[trigger] items[i]) is Int,
    ensures
        texts_of(items) == Err::<Seq<Seq<char>>, ErrorText>(
            type_error("'int' object cannot be cast as 'str'"@),
        ),
    decreases items.len(),
{
    let init = items.drop_last();
    assert(items[items.len() - 1] is Int);
    if init.len() > 0 {
        assert forall|i: int| 0 <= i < init.len() implies (#[trigger] init[i]) is Int by {
            assert(init[i] == items[i]);
        }
        lemma_no_texts(init);
    } else {
        reveal_strlit("'");
        reveal_strlit("int");
        reveal_strlit("' object cannot be cast as 'str'");
        reveal_strlit("'int' object cannot be cast as 'str'");
        assert("'"@ + "int"@ + "' object cannot be cast as 'str'"@
            =~= "'int' object cannot be cast as 'str'"@);
    }
}

fn list_ints(v: &Vec<PyValue>, high: u32) -> (r: Result<Vec<u32>, ScriptError>)
    requires
        high >= 1,
    ensures
        match r {
            Ok(out) => ints_of(py_texts(*v, v@.len()), high as int) == Ok::<Seq<int>, ErrorText>(
                Seq::new(out@.len(), |i: int| out@[i] as int),
            ) && forall|i: int| 0 <= i < out@.len() ==> #[trigger] out@[i] <= high,
            Err(e) => ints_of(py_texts(*v, v@.len()), high as int) == Err::<Seq<int>, ErrorText>(e@),
        },
{
    proof {
        lemma_list_text(*v);
    }
    let ghost items = values_text(v@);
    let mut out: Vec<u32> = Vec::new();
    let mut i: usize = 0;
    assert(items.take(0) =~= Seq::empty());
    assert(Seq::new(0, |k: int| out@[k] as int) =~= Seq::<int>::empty());
    while i < v.len()
        invariant
            i <= v@.len(),
            high >= 1,
            items == values_text(v@),
            items == py_texts(*v, v@.len()),
            out@.len() == i,
            ints_of(items.take(i as int), high as int) == Ok::<Seq<int>, ErrorText>(
                Seq::new(i as nat, |k: int| out@[k] as int),
            ),
            forall|k: int| 0 <= k < i ==> #[trigger] out@[k] <= high,
        decreases v@.len() - i,
    {
        let ghost before = out@;
        let ghost next = items.take(i + 1);
        assert(next.drop_last() =~= items.take(i as int));
        assert(next.last() == v@[i as int]@);
        match v[i].as_int(0, high as i128) {
            Ok(n) => {
                out.push(n as u32);
                assert(Seq::new(i as nat, |k: int| before[k] as int).push(n as int) =~= Seq::new(
                    (i + 1) as nat,
                    |k: int| out@[k] as int,
                ));
            },
            Err(e) => {
                proof {
                    lemma_ints_error(items, high as int, i + 1);
                }
                return Err(e);
            },
        }
        i += 1;
    }
    assert(items.take(v@.len() as int) =~= items);
    Ok(out)
}

proof fn lemma_ints_error(v: Seq<PyText>, high: int, n: int)
    requires
        0 <= n <= v.len(),
        ints_of(v.take(n), high) is Err,
    ensures
        ints_of(v, high) == ints_of(v.take(n), high),
    decreases v.len() - n,
{
    if n == v.len() {
        assert(v.take(n) =~= v);
    } else {
        assert(v.take(n + 1).drop_last() =~= v.take(n));
        lemma_ints_error(v, high, n + 1);
    }
}

fn list_texts(v: &Vec<PyValue>) -> (r: Result<Vec<String>, ScriptError>)
    ensures
        match r {
            Ok(out) => texts_of(py_texts(*v, v@.len())) == Ok::<Seq<Seq<char>>, ErrorText>(
                texts(out@),
            ),
            Err(e) => texts_of(py_texts(*v, v@.len())) == Err::<Seq<Seq<char>>, ErrorText>(e@),
        },
{
    proof {
        lemma_list_text(*v);
    }
    let ghost items = values_text(v@);
    let mut out: Vec<String> = Vec::new();
    let mut i: usize = 0;
    assert(items.take(0) =~= Seq::empty());
    assert(texts(out@) =~= Seq::<Seq<char>>::empty());
    while i < v.len()
        invariant
            i <= v@.len(),
            items == values_text(v@),
            items == py_texts(*v, v@.len()),
            texts_of(items.take(i as int)) == Ok::<Seq<Seq<char>>, ErrorText>(texts(out@)),
        decreases v@.len() - i,
    {
        let ghost before = out@;
        let ghost next = items.take(i + 1);
        assert(next.drop_last() =~= items.take(i as int));
        assert(next.last() == v@[i as int]@);
        match v[i].as_text() {
            Ok(s) => {
                out.push(s);
                assert(texts(out@) =~= texts(before).push(s@));
            },
            Err(e) => {
                proof {
                    lemma_texts_error(items, i + 1);
                }
                return Err(e);
            },
        }
        i += 1;
    }
    assert(items.take(v@.len() as int) =~= items);
    Ok(out)
}

proof fn lemma_texts_error(v: Seq<PyText>, n: int)
    requires
        0 <= n <= v.len(),
        texts_of(v.take(n)) is Err,
    ensures
        texts_of(v) == texts_of(v.take(n)),
    decreases v.len() - n,
{
    if n == v.len() {
        assert(v.take(n) =~= v);
    } else {
        assert(v.take(n + 1).drop_last() =~= v.take(n));
        lemma_texts_error(v, n + 1);
    }
}

/// The value under a key of a dict.
pub(crate) fn find_entry<'a>(v: &'a Vec<(String, PyValue)>, key: &str) -> (r: Option<&'a PyValue>)
    ensures
        match r {
            Some(value) => entry(entries_text(v@), key@) == Some(value@),
            None => entry(entries_text(v@), key@) is None,
        },
{
    let ghost all = entries_text(v@);
    let mut i: usize = 0;
    assert(all.skip(0) =~= all);
    while i < v.len()
        invariant
            i <= v@.len(),
            all == entries_text(v@),
            entry(all, key@) == entry(all.skip(i as int), key@),
        decreases v@.len() - i,
    {
        if same_text(&v[i].0, key) {
            return Some(&v[i].1);
        }
        assert(all.skip(i as int).skip(1) =~= all.skip(i + 1));
        i += 1;
    }
    None
}

/// Assigns a value to a key of a dict.
pub fn assign(d: Vec<(String, PyValue)>, key: String, value: PyValue) -> (r: Vec<(String, PyValue)>)
    ensures
        entries_text(r@) == assigned(entries_text(d@), key@, value@),
{
    let mut i: usize = 0;
    let ghost all = entries_text(d@);
    let ghost want = assigned(all, key@, value@);
    assert(all.skip(0) =~= all);
    assert(all.take(0) + want =~= want);
    while i < d.len() && !same_text(&d[i].0, &key)
        invariant
            i <= d@.len(),
            all == entries_text(d@),
            want == assigned(all, key@, value@),
            want == all.take(i as int) + assigned(all.skip(i as int), key@, value@),
        decreases d@.len() - i,
    {
        proof {
            let rest = all.skip(i as int);
            assert(rest.skip(1) =~= all.skip(i + 1));
            assert(all.take(i as int) + (seq![rest[0]] + assigned(rest.skip(1), key@, value@))
                =~= all.take(i + 1) + assigned(all.skip(i + 1), key@, value@));
        }
        i += 1;
    }
    let mut out = d;
    if i < out.len() {
        out.set(i, (key, value));
        assert(all.skip(i as int).skip(1) =~= all.skip(i + 1));
    } else {
        out.push((key, value));
    }
    assert(entries_text(out@) =~= want);
    out
}

/// The entries of a dict whose keys may be of any kind.
pub open spec fn items_text(v: Seq<(PyValue, PyValue)>) -> Seq<(PyText, PyText)> {
    Seq::new(v.len(), |i: int| (v[i].0@, v[i].1@))
}

/// A dict as a map from text to text; the error of the first key or value that
/// is no text.
pub open spec fn string_map(items: Seq<(PyText, PyText)>) -> Result<
    Seq<(Seq<char>, Seq<char>)>,
    ErrorText,
>
    decreases items.len(),
{
    if items.len() == 0 {
        Ok(Seq::empty())
    } else {
        match string_map(items.drop_last()) {
            Err(e) => Err(e),
            Ok(before) => {
                let (key, value) = items.last();
                match (as_text(key), as_text(value)) {
                    (Err(e), _) => Err(e),
                    (_, Err(e)) => Err(e),
                    (Ok(k), Ok(v)) => Ok(put(before, k, v)),
                }
            },
        }
    }
}

/// The entries of a dict whose key and value are both text.
pub open spec fn string_entries(items: Seq<(PyText, PyText)>) -> Seq<(Seq<char>, Seq<char>)>
    decreases items.len(),
{
    if items.len() == 0 {
        Seq::empty()
    } else {
        let before = string_entries(items.drop_last());
        let (key, value) = items.last();
        match (key, value) {
            (PyText::Text(k), PyText::Text(v)) => put(before, k, v),
            _ => before,
        }
    }
}

proof fn lemma_map_error(items: Seq<(PyText, PyText)>, n: int)
    requires
        0 <= n <= items.len(),
        string_map(items.take(n)) is Err,
    ensures
        string_map(items) == string_map(items.take(n)),
    decreases items.len() - n,
{
    if n == items.len() {
        assert(items.take(n) =~= items);
    } else {
        assert(items.take(n + 1).drop_last() =~= items.take(n));
        lemma_map_error(items, n + 1);
    }
}

/// A dict as a map from text to text.
pub fn to_string_map(v: &Vec<(PyValue, PyValue)>) -> (r: Result<Vec<(String, String)>, ScriptError>)
    ensures
        match r {
            Ok(out) => string_map(items_text(v@)) == Ok::<Seq<(Seq<char>, Seq<char>)>, ErrorText>(
                pairs_text(out@),
            ),
            Err(e) => string_map(items_text(v@)) == Err::<Seq<(Seq<char>, Seq<char>)>, ErrorText>(
                e@,
            ),
        },
{
    let ghost all = items_text(v@);
    let mut out: Vec<(String, String)> = Vec::new();
    let mut i: usize = 0;
    assert(pairs_text(out@) =~= Seq::<(Seq<char>, Seq<char>)>::empty());
    while i < v.len()
        invariant
            i <= v@.len(),
            all == items_text(v@),
            string_map(all.take(i as int)) == Ok::<Seq<(Seq<char>, Seq<char>)>, ErrorText>(
                pairs_text(out@),
            ),
        decreases v@.len() - i,
    {
        assert(all.take(i + 1).drop_last() =~= all.take(i as int));
        assert(all.take(i + 1).last() == (v@[i as int].0@, v@[i as int].1@));
        let key = match v[i].0.as_text() {
            Ok(key) => key,
            Err(e) => {
                proof {
                    lemma_map_error(all, i + 1);
                }
                return Err(e);
            },
        };
        let value = match v[i].1.as_text() {
            Ok(value) => value,
            Err(e) => {
                proof {
                    lemma_map_error(all, i + 1);
                }
                return Err(e);
            },
        };
        put_pair(&mut out, key, value);
        i += 1;
    }
    assert(all.take(v@.len() as int) =~= all);
    Ok(out)
}

/// The entries of a dict whose key and value are both text.
pub fn to_string_entries(v: &Vec<(PyValue, PyValue)>) -> (r: Vec<(String, String)>)
    ensures
        pairs_text(r@) == string_entries(items_text(v@)),
{
    let ghost all = items_text(v@);
    let mut out: Vec<(String, String)> = Vec::new();
    let mut i: usize = 0;
    assert(pairs_text(out@) =~= Seq::<(Seq<char>, Seq<char>)>::empty());
    while i < v.len()
        invariant
            i <= v@.len(),
            all == items_text(v@),
            string_entries(all.take(i as int)) == pairs_text(out@),
        decreases v@.len() - i,
    {
        assert(all.take(i + 1).drop_last() =~= all.take(i as int));
        assert(all.take(i + 1).last() == (v@[i as int].0@, v@[i as int].1@));
        if let PyValue::Text(key) = &v[i].0 {
            if let PyValue::Text(value) = &v[i].1 {
                put_pair(&mut out, key.clone(), value.clone());
            }
        }
        i += 1;
    }
    assert(all.take(v@.len() as int) =~= all);
    out
}

/// The entries of a dict with text keys, each as a value.
pub open spec fn keyed_items(d: Seq<(Seq<char>, PyText)>) -> Seq<(PyText, PyText)> {
    Seq::new(d.len(), |i: int| (PyText::Text(d[i].0), d[i].1))
}

/// A value as a map from text to text.
pub open spec fn as_string_map(p: PyText) -> Result<Seq<(Seq<char>, Seq<char>)>, ErrorText> {
    match p {
        PyText::Dict(d) => string_map(keyed_items(d)),
        _ => Err(type_error("'"@ + kind_name(p) + "' object is not an instance of 'dict'"@)),
    }
}

impl PyValue {
    /// The value as a map from text to text.
    pub fn as_string_map(&self) -> (r: Result<Vec<(String, String)>, ScriptError>)
        ensures
            match r {
                Ok(out) => as_string_map(self@) == Ok::<Seq<(Seq<char>, Seq<char>)>, ErrorText>(
                    pairs_text(out@),
                ),
                Err(e) => as_string_map(self@) == Err::<Seq<(Seq<char>, Seq<char>)>, ErrorText>(
                    e@,
                ),
            },
    {
        match self {
            PyValue::Dict(d) => {
                proof {
                    lemma_dict_text(*d);
                }
                dict_strings(d)
            },
            _ => Err(
                ScriptError::type_(
                    "'".to_owned().concat(&self.kind_name()).concat(
                        "' object is not an instance of 'dict'",
                    ),
                ),
            ),
        }
    }
}

fn dict_strings(d: &Vec<(String, PyValue)>) -> (r: Result<Vec<(String, String)>, ScriptError>)
    ensures
        match r {
            Ok(out) => string_map(keyed_items(entries_text(d@))) == Ok::<
                Seq<(Seq<char>, Seq<char>)>,
                ErrorText,
            >(pairs_text(out@)),
            Err(e) => string_map(keyed_items(entries_text(d@))) == Err::<
                Seq<(Seq<char>, Seq<char>)>,
                ErrorText,
            >(e@),
        },
{
    let ghost all = keyed_items(entries_text(d@));
    let mut out: Vec<(String, String)> = Vec::new();
    let mut i: usize = 0;
    assert(pairs_text(out@) =~= Seq::<(Seq<char>, Seq<char>)>::empty());
    while i < d.len()
        invariant
            i <= d@.len(),
            all == keyed_items(entries_text(d@)),
            string_map(all.take(i as int)) == Ok::<Seq<(Seq<char>, Seq<char>)>, ErrorText>(
                pairs_text(out@),
            ),
        decreases d@.len() - i,
    {
        assert(all.take(i + 1).drop_last() =~= all.take(i as int));
        assert(all.take(i + 1).last() == (PyText::Text(d@[i as int].0@), d@[i as int].1@));
        let value = match d[i].1.as_text() {
            Ok(value) => value,
            Err(e) => {
                proof {
                    lemma_map_error(all, i + 1);
                }
                return Err(e);
            },
        };
        put_pair(&mut out, d[i].0.clone(), value);
        i += 1;
    }
    assert(all.take(d@.len() as int) =~= all);
    Ok(out)
}

/// An optional dict as a map from text to text; the empty map without one.
pub open spec fn filter_of(attrs: Option<Seq<(PyText, PyText)>>) -> Result<
    Seq<(Seq<char>, Seq<char>)>,
    ErrorText,
> {
    match attrs {
        Some(items) => string_map(items),
        None => Ok(Seq::empty()),
    }
}

/// The entries of an optional dict.
pub open spec fn opt_items(attrs: Option<Vec<(PyValue, PyValue)>>) -> Option<Seq<(PyText, PyText)>> {
    match attrs {
        Some(v) => Some(items_text(v@)),
        None => None,
    }
}

} // verus!
