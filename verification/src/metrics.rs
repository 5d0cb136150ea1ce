//! Metrics that scripts define: which labels a measurement carries.
//!
//! The measured numbers themselves do not pass through here.

use crate::error::{runtime_error, value_error, ErrorText, ScriptError};
use crate::text::{assoc, assoc_get, copy_pairs, pairs_text, texts};
use vstd::prelude::*;
use vstd::string::*;

verus! {

/// The labels of a metric with the values that a script gave, in the order of
/// the metric; the error of the first label that has none.
pub open spec fn label_values(names: Seq<Seq<char>>, kwargs: Seq<(Seq<char>, Seq<char>)>) -> Result<
    Seq<(Seq<char>, Seq<char>)>,
    ErrorText,
>
    decreases names.len(),
{
    if names.len() == 0 {
        Ok(Seq::empty())
    } else {
        match label_values(names.drop_last(), kwargs) {
            Err(e) => Err(e),
            Ok(before) => match assoc(kwargs, names.last()) {
                Some(value) => Ok(before.push((names.last(), value))),
                None => Err(value_error("missing label '"@ + names.last() + "'"@)),
            },
        }
    }
}

/// The labels of a metric with the values that a script gave. A call without
/// any value is an error.
pub open spec fn resolved(names: Seq<Seq<char>>, kwargs: Option<Seq<(Seq<char>, Seq<char>)>>) -> Result<
    Seq<(Seq<char>, Seq<char>)>,
    ErrorText,
> {
    match kwargs {
        None => Err(value_error("labels() requires keyword arguments"@)),
        Some(kwargs) => label_values(names, kwargs),
    }
}

/// The pairs of an optional list.
pub open spec fn opt_pairs(v: Option<&Vec<(String, String)>>) -> Option<Seq<(Seq<char>, Seq<char>)>> {
    match v {
        Some(v) => Some(pairs_text(v@)),
        None => None,
    }
}

proof fn lemma_label_error(names: Seq<Seq<char>>, kwargs: Seq<(Seq<char>, Seq<char>)>, n: int)
    requires
        0 <= n <= names.len(),
        label_values(names.take(n), kwargs) is Err,
    ensures
        label_values(names, kwargs) == label_values(names.take(n), kwargs),
    decreases names.len() - n,
{
    if n == names.len() {
        assert(names.take(n) =~= names);
    } else {
        assert(names.take(n + 1).drop_last() =~= names.take(n));
        lemma_label_error(names, kwargs, n + 1);
    }
}

/// Puts the values that a script gave in the order of the labels.
pub fn resolve_kwargs(label_names: &Vec<String>, kwargs: Option<&Vec<(String, String)>>) -> (r: Result<
    Vec<(String, String)>,
    ScriptError,
>)
    ensures
        match r {
            Ok(pairs) => resolved(texts(label_names@), opt_pairs(kwargs)) == Ok::<
                Seq<(Seq<char>, Seq<char>)>,
                ErrorText,
            >(pairs_text(pairs@)),
            Err(e) => resolved(texts(label_names@), opt_pairs(kwargs)) == Err::<
                Seq<(Seq<char>, Seq<char>)>,
                ErrorText,
            >(e@),
        },
{
    let given = match kwargs {
        Some(given) => given,
        None => {
            return Err(ScriptError::value("labels() requires keyword arguments".to_owned()));
        },
    };
    let ghost names = texts(label_names@);
    let mut pairs: Vec<(String, String)> = Vec::new();
    let mut i: usize = 0;
    assert(pairs_text(pairs@) =~= Seq::<(Seq<char>, Seq<char>)>::empty());
    while i < label_names.len()
        invariant
            i <= label_names@.len(),
            names == texts(label_names@),
            opt_pairs(kwargs) == Some(pairs_text(given@)),
            label_values(names.take(i as int), pairs_text(given@)) == Ok::<
                Seq<(Seq<char>, Seq<char>)>,
                ErrorText,
            >(pairs_text(pairs@)),
        decreases label_names@.len() - i,
    {
        assert(names.take(i + 1).drop_last() =~= names.take(i as int));
        assert(names.take(i + 1).last() == label_names@[i as int]@);
        let ghost before = pairs@;
        match assoc_get(given, &label_names[i]) {
            Some(value) => {
                pairs.push((label_names[i].clone(), value));
                assert(pairs_text(pairs@) =~= pairs_text(before).push(
                    (label_names@[i as int]@, value@),
                ));
            },
            None => {
                proof {
                    lemma_label_error(names, pairs_text(given@), i + 1);
                }
                return Err(
                    ScriptError::value(
                        "missing label '".to_owned().concat(&label_names[i]).concat("'"),
                    ),
                );
            },
        }
        i += 1;
    }
    assert(names.take(label_names@.len() as int) =~= names);
    Ok(pairs)
}

/// Where a measurement goes: a metric, and the values of its labels.
#[derive(Debug, PartialEq)]
pub struct Series {
    pub name: String,
    pub labels: Vec<(String, String)>,
}

/// A series as mathematical data.
pub struct SeriesText {
    pub name: Seq<char>,
    pub labels: Seq<(Seq<char>, Seq<char>)>,
}

impl View for Series {
    type V = SeriesText;

    open spec fn view(&self) -> SeriesText {
        SeriesText { name: self.name@, labels: pairs_text(self.labels@) }
    }
}

impl Series {
    pub fn copy(&self) -> (r: Self)
        ensures
            r@ == self@,
    {
        Series { name: self.name.clone(), labels: copy_pairs(&self.labels) }
    }
}

/// A metric: its name and the names of its labels.
pub struct MetricText {
    pub name: Seq<char>,
    pub label_names: Seq<Seq<char>>,
}

/// The series of a metric without labels; the given error for one with labels.
pub open spec fn bare_series(metric: MetricText, refusal: Seq<char>) -> Result<SeriesText, ErrorText> {
    if metric.label_names.len() > 0 {
        Err(value_error(refusal))
    } else {
        Ok(SeriesText { name: metric.name, labels: Seq::empty() })
    }
}

/// The series of a metric under given labels.
pub open spec fn labeled_series(metric: MetricText, kwargs: Option<Seq<(Seq<char>, Seq<char>)>>) -> Result<
    SeriesText,
    ErrorText,
> {
    match resolved(metric.label_names, kwargs) {
        Ok(labels) => Ok(SeriesText { name: metric.name, labels }),
        Err(e) => Err(e),
    }
}

/// The metric that a registration makes.
pub open spec fn registered(name: Seq<char>, labels: Option<Vec<String>>) -> MetricText {
    MetricText {
        name,
        label_names: match labels {
            Some(labels) => texts(labels@),
            None => Seq::empty(),
        },
    }
}

fn bare(name: &String, label_names: &Vec<String>, refusal: &str) -> (r: Result<Series, ScriptError>)
    ensures
        match r {
            Ok(series) => bare_series(
                (MetricText { name: name@, label_names: texts(label_names@) }),
                refusal@,
            ) == Ok::<SeriesText, ErrorText>(series@),
            Err(e) => bare_series(
                (MetricText { name: name@, label_names: texts(label_names@) }),
                refusal@,
            ) == Err::<SeriesText, ErrorText>(e@),
        },
{
    if label_names.len() > 0 {
        return Err(ScriptError::value(refusal.to_owned()));
    }
    let series = Series { name: name.clone(), labels: Vec::new() };
    assert(series@.labels =~= Seq::<(Seq<char>, Seq<char>)>::empty());
    Ok(series)
}

fn labeled(name: &String, label_names: &Vec<String>, kwargs: Option<&Vec<(String, String)>>) -> (r: Result<
    Series,
    ScriptError,
>)
    ensures
        match r {
            Ok(series) => labeled_series(
                (MetricText { name: name@, label_names: texts(label_names@) }),
                opt_pairs(kwargs),
            ) == Ok::<SeriesText, ErrorText>(series@),
            Err(e) => labeled_series(
                (MetricText { name: name@, label_names: texts(label_names@) }),
                opt_pairs(kwargs),
            ) == Err::<SeriesText, ErrorText>(e@),
        },
{
    match resolve_kwargs(label_names, kwargs) {
        Ok(labels) => Ok(Series { name: name.clone(), labels }),
        Err(e) => Err(e),
    }
}

fn names_or_none(labels: Option<Vec<String>>) -> (r: Vec<String>)
    ensures
        texts(r@) == match labels {
            Some(labels) => texts(labels@),
            None => Seq::empty(),
        },
{
    match labels {
        Some(labels) => labels,
        None => {
            let none: Vec<String> = Vec::new();
            assert(texts(none@) =~= Seq::<Seq<char>>::empty());
            none
        },
    }
}

/// A counter under given labels.
pub struct PyCounterChild {
    series: Series,
}

impl View for PyCounterChild {
    type V = SeriesText;

    closed spec fn view(&self) -> SeriesText {
        self.series@
    }
}

impl PyCounterChild {
    /// The series that an increment goes to.
    pub fn inc(&self) -> (r: Series)
        ensures
            r@ == self@,
    {
        self.series.copy()
    }
}

/// A counter.
pub struct PyCounter {
    name: String,
    label_names: Vec<String>,
}

impl View for PyCounter {
    type V = MetricText;

    closed spec fn view(&self) -> MetricText {
        MetricText { name: self.name@, label_names: texts(self.label_names@) }
    }
}

impl PyCounter {
    /// The series that an increment without labels goes to.
    pub fn inc(&self) -> (r: Result<Series, ScriptError>)
        ensures
            match r {
                Ok(series) => bare_series(
                    self@,
                    "counter has labels — use .labels(...).inc() instead"@,
                ) == Ok::<SeriesText, ErrorText>(series@),
                Err(e) => bare_series(
                    self@,
                    "counter has labels — use .labels(...).inc() instead"@,
                ) == Err::<SeriesText, ErrorText>(e@),
            },
    {
        bare(
            &self.name,
            &self.label_names,
            "counter has labels — use .labels(...).inc() instead",
        )
    }

    /// The counter under given labels.
    pub fn labels(&self, kwargs: Option<&Vec<(String, String)>>) -> (r: Result<
        PyCounterChild,
        ScriptError,
    >)
        ensures
            match r {
                Ok(child) => labeled_series(self@, opt_pairs(kwargs)) == Ok::<
                    SeriesText,
                    ErrorText,
                >(child@),
                Err(e) => labeled_series(self@, opt_pairs(kwargs)) == Err::<SeriesText, ErrorText>(
                    e@,
                ),
            },
    {
        match labeled(&self.name, &self.label_names, kwargs) {
            Ok(series) => Ok(PyCounterChild { series }),
            Err(e) => Err(e),
        }
    }
}

/// A gauge under given labels.
pub struct PyGaugeChild {
    series: Series,
}

impl View for PyGaugeChild {
    type V = SeriesText;

    closed spec fn view(&self) -> SeriesText {
        self.series@
    }
}

impl PyGaugeChild {
    /// The series that an increment goes to.
    pub fn inc(&self) -> (r: Series)
        ensures
            r@ == self@,
    {
        self.series.copy()
    }

    /// The series that a decrement goes to.
    pub fn dec(&self) -> (r: Series)
        ensures
            r@ == self@,
    {
        self.series.copy()
    }

    /// The series that a value goes to.
    pub fn set(&self) -> (r: Series)
        ensures
            r@ == self@,
    {
        self.series.copy()
    }
}

/// A gauge.
pub struct PyGauge {
    name: String,
    label_names: Vec<String>,
}

impl View for PyGauge {
    type V = MetricText;

    closed spec fn view(&self) -> MetricText {
        MetricText { name: self.name@, label_names: texts(self.label_names@) }
    }
}

impl PyGauge {
    /// The series that an increment without labels goes to.
    pub fn inc(&self) -> (r: Result<Series, ScriptError>)
        ensures
            match r {
                Ok(series) => bare_series(
                    self@,
                    "gauge has labels — use .labels(...).inc() instead"@,
                ) == Ok::<SeriesText, ErrorText>(series@),
                Err(e) => bare_series(
                    self@,
                    "gauge has labels — use .labels(...).inc() instead"@,
                ) == Err::<SeriesText, ErrorText>(e@),
            },
    {
        bare(&self.name, &self.label_names, "gauge has labels — use .labels(...).inc() instead")
    }

    /// The series that a decrement without labels goes to.
    pub fn dec(&self) -> (r: Result<Series, ScriptError>)
        ensures
            match r {
                Ok(series) => bare_series(
                    self@,
                    "gauge has labels — use .labels(...).dec() instead"@,
                ) == Ok::<SeriesText, ErrorText>(series@),
                Err(e) => bare_series(
                    self@,
                    "gauge has labels — use .labels(...).dec() instead"@,
                ) == Err::<SeriesText, ErrorText>(e@),
            },
    {
        bare(&self.name, &self.label_names, "gauge has labels — use .labels(...).dec() instead")
    }

    /// The series that a value without labels goes to.
    pub fn set(&self) -> (r: Result<Series, ScriptError>)
        ensures
            match r {
                Ok(series) => bare_series(
                    self@,
                    "gauge has labels — use .labels(...).set() instead"@,
                ) == Ok::<SeriesText, ErrorText>(series@),
                Err(e) => bare_series(
                    self@,
                    "gauge has labels — use .labels(...).set() instead"@,
                ) == Err::<SeriesText, ErrorText>(e@),
            },
    {
        bare(&self.name, &self.label_names, "gauge has labels — use .labels(...).set() instead")
    }

    /// The gauge under given labels.
    pub fn labels(&self, kwargs: Option<&Vec<(String, String)>>) -> (r: Result<
        PyGaugeChild,
        ScriptError,
    >)
        ensures
            match r {
                Ok(child) => labeled_series(self@, opt_pairs(kwargs)) == Ok::<
                    SeriesText,
                    ErrorText,
                >(child@),
                Err(e) => labeled_series(self@, opt_pairs(kwargs)) == Err::<SeriesText, ErrorText>(
                    e@,
                ),
            },
    {
        match labeled(&self.name, &self.label_names, kwargs) {
            Ok(series) => Ok(PyGaugeChild { series }),
            Err(e) => Err(e),
        }
    }
}

/// A histogram under given labels.
pub struct PyHistogramChild {
    series: Series,
}

impl View for PyHistogramChild {
    type V = SeriesText;

    closed spec fn view(&self) -> SeriesText {
        self.series@
    }
}

impl PyHistogramChild {
    /// The series that an observation goes to.
    pub fn observe(&self) -> (r: Series)
        ensures
            r@ == self@,
    {
        self.series.copy()
    }
}

/// A histogram.
pub struct PyHistogram {
    name: String,
    label_names: Vec<String>,
}

impl View for PyHistogram {
    type V = MetricText;

    closed spec fn view(&self) -> MetricText {
        MetricText { name: self.name@, label_names: texts(self.label_names@) }
    }
}

impl PyHistogram {
    /// The series that an observation without labels goes to.
    pub fn observe(&self) -> (r: Result<Series, ScriptError>)
        ensures
            match r {
                Ok(series) => bare_series(
                    self@,
                    "histogram has labels — use .labels(...).observe() instead"@,
                ) == Ok::<SeriesText, ErrorText>(series@),
                Err(e) => bare_series(
                    self@,
                    "histogram has labels — use .labels(...).observe() instead"@,
                ) == Err::<SeriesText, ErrorText>(e@),
            },
    {
        bare(
            &self.name,
            &self.label_names,
            "histogram has labels — use .labels(...).observe() instead",
        )
    }

    /// The histogram under given labels.
    pub fn labels(&self, kwargs: Option<&Vec<(String, String)>>) -> (r: Result<
        PyHistogramChild,
        ScriptError,
    >)
        ensures
            match r {
                Ok(child) => labeled_series(self@, opt_pairs(kwargs)) == Ok::<
                    SeriesText,
                    ErrorText,
                >(child@),
                Err(e) => labeled_series(self@, opt_pairs(kwargs)) == Err::<SeriesText, ErrorText>(
                    e@,
                ),
            },
    {
        match labeled(&self.name, &self.label_names, kwargs) {
            Ok(series) => Ok(PyHistogramChild { series }),
            Err(e) => Err(e),
        }
    }
}

/// The `metrics` namespace of scripts.
pub struct PyMetricsNamespace;

impl PyMetricsNamespace {
    pub fn new() -> (r: Self)
        ensures
            r == PyMetricsNamespace,
    {
        PyMetricsNamespace
    }

    /// The counter that a script gets once it was registered, or why it was
    /// not.
    pub fn counter(&self, name: &str, labels: Option<Vec<String>>, outcome: Result<(), String>) -> (r:
        Result<PyCounter, ScriptError>)
        ensures
            match outcome {
                Ok(()) => r matches Ok(metric) && metric@ == registered(name@, labels),
                Err(reason) => r matches Err(e) && e@ == value_error(reason@),
            },
    {
        match outcome {
            Ok(()) => Ok(
                PyCounter { name: name.to_owned(), label_names: names_or_none(labels) },
            ),
            Err(reason) => Err(ScriptError::value(reason)),
        }
    }

    /// The gauge that a script gets once it was registered, or why it was not.
    pub fn gauge(&self, name: &str, labels: Option<Vec<String>>, outcome: Result<(), String>) -> (r:
        Result<PyGauge, ScriptError>)
        ensures
            match outcome {
                Ok(()) => r matches Ok(metric) && metric@ == registered(name@, labels),
                Err(reason) => r matches Err(e) && e@ == value_error(reason@),
            },
    {
        match outcome {
            Ok(()) => Ok(PyGauge { name: name.to_owned(), label_names: names_or_none(labels) }),
            Err(reason) => Err(ScriptError::value(reason)),
        }
    }

    /// The histogram that a script gets once it was registered, or why it was
    /// not.
    pub fn histogram(&self, name: &str, labels: Option<Vec<String>>, outcome: Result<(), String>) -> (r:
        Result<PyHistogram, ScriptError>)
        ensures
            match outcome {
                Ok(()) => r matches Ok(metric) && metric@ == registered(name@, labels),
                Err(reason) => r matches Err(e) && e@ == value_error(reason@),
            },
    {
        match outcome {
            Ok(()) => Ok(
                PyHistogram { name: name.to_owned(), label_names: names_or_none(labels) },
            ),
            Err(reason) => Err(ScriptError::value(reason)),
        }
    }
}

/// A labeled series carries every label of its metric, in the order of the
/// metric, with the value that the script gave.
pub proof fn series_carries_every_label(
    names: Seq<Seq<char>>,
    kwargs: Seq<(Seq<char>, Seq<char>)>,
    i: int,
)
    requires
        label_values(names, kwargs) is Ok,
        0 <= i < names.len(),
    ensures
        label_values(names, kwargs)->Ok_0.len() == names.len(),
        label_values(names, kwargs)->Ok_0[i].0 == names[i],
        assoc(kwargs, names[i]) == Some(label_values(names, kwargs)->Ok_0[i].1),
    decreases names.len(),
{
    let init = names.drop_last();
    reveal_with_fuel(label_values, 2);
    if init.len() > 0 {
        if i < init.len() {
            series_carries_every_label(init, kwargs, i);
        } else {
            series_carries_every_label(init, kwargs, 0);
        }
    }
}

/// What a script sees of a measurement: where the store refused it, its reason
/// is an error.
pub fn measured(outcome: Result<(), String>) -> (r: Result<(), ScriptError>)
    ensures
        match outcome {
            Ok(_) => r is Ok,
            Err(reason) => r is Err && r->Err_0@ == runtime_error(reason@),
        },
{
    match outcome {
        Ok(_) => Ok(()),
        Err(reason) => Err(ScriptError::runtime(reason)),
    }
}

} // verus!
