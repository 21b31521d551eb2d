//! What a training run records, metric by metric.

use vstd::prelude::*;
use vstd::string::*;
use crate::scalar::Scalar;

verus! {

/// The values of one metric, epoch by epoch.
pub struct MetricSeries<T> {
    pub name: String,
    pub values: Vec<T>,
}

/// What a training run recorded: the epochs, and for every metric the
/// values it took.
pub struct TrainingHistory<T> {
    pub metrics: Vec<MetricSeries<T>>,
    pub epochs: Vec<usize>,
}

/// The position of the series of the given name among the entries from
/// `from` on, if there is one.
pub open spec fn series_at<T: Scalar>(metrics: Seq<MetricSeries<T>>, name: Seq<char>, from: int) -> Option<
    int,
>
    decreases metrics.len() - from,
{
    if from < 0 || from >= metrics.len() {
        None
    } else if metrics[from].name@ == name {
        Some(from)
    } else {
        series_at(metrics, name, from + 1)
    }
}

/// The values recorded under `name`: those of its series, if it has one.
pub open spec fn values_of<T: Scalar>(metrics: Seq<MetricSeries<T>>, name: Seq<char>) -> Option<
    Seq<T>,
> {
    match series_at(metrics, name, 0) {
        Some(k) => Some(metrics[k].values@),
        None => None,
    }
}

/// What is recorded under a name after one more value was recorded, under
/// the same name or under another.
pub open spec fn after_record<T>(before: Option<Seq<T>>, same: bool, value: T) -> Option<Seq<T>> {
    if !same {
        before
    } else {
        match before {
            Some(v) => Some(v.push(value)),
            None => Some(seq![value]),
        }
    }
}

/// What is recorded under `name` after the first `n` entries of `logs`
/// were recorded one after the other.
pub open spec fn after_logs<T: Scalar>(
    before: Option<Seq<T>>,
    logs: Seq<(String, T)>,
    name: Seq<char>,
    n: nat,
) -> Option<Seq<T>>
    decreases n,
{
    if n == 0 {
        before
    } else {
        after_record(
            after_logs(before, logs, name, (n - 1) as nat),
            logs[n - 1].0@ == name,
            logs[n - 1].1,
        )
    }
}

proof fn lemma_series_found<T: Scalar>(metrics: Seq<MetricSeries<T>>, name: Seq<char>, from: int)
    requires
        0 <= from,
    ensures
        series_at(metrics, name, from) matches Some(k) ==> from <= k < metrics.len()
            && metrics[k].name@ == name,
    decreases metrics.len() - from,
{
    if from < metrics.len() && metrics[from].name@ != name {
        lemma_series_found(metrics, name, from + 1);
    }
}

proof fn lemma_series_by_names<T: Scalar>(
    a: Seq<MetricSeries<T>>,
    b: Seq<MetricSeries<T>>,
    name: Seq<char>,
    from: int,
)
    requires
        0 <= from,
        a.len() == b.len(),
        forall|i: int| 0 <= i < a.len() ==> (#[trigger] a[i]).name@ == b[i].name@,
    ensures
        series_at(a, name, from) == series_at(b, name, from),
    decreases a.len() - from,
{
    if from < a.len() {
        assert(a[from].name@ == b[from].name@);
        if a[from].name@ != name {
            lemma_series_by_names(a, b, name, from + 1);
        }
    }
}

proof fn lemma_series_pushed<T: Scalar>(
    a: Seq<MetricSeries<T>>,
    b: Seq<MetricSeries<T>>,
    name: Seq<char>,
    from: int,
)
    requires
        0 <= from <= a.len(),
        b.len() == a.len() + 1,
        forall|i: int| 0 <= i < a.len() ==> (#[trigger] a[i]).name@ == b[i].name@,
    ensures
        series_at(b, name, from) == match series_at(a, name, from) {
            Some(k) => Some(k),
            None => if b.last().name@ == name {
                Some(a.len() as int)
            } else {
                None
            },
        },
    decreases a.len() - from,
{
    if from < a.len() {
        assert(a[from].name@ == b[from].name@);
        if a[from].name@ != name {
            lemma_series_pushed(a, b, name, from + 1);
        }
    } else {
        assert(series_at(b, name, from + 1) is None);
    }
}

impl<T: Scalar> TrainingHistory<T> {
    pub fn new() -> (r: Self)
        ensures
            r.metrics@.len() == 0,
            r.epochs@.len() == 0,
    {
        TrainingHistory { metrics: Vec::new(), epochs: Vec::new() }
    }

    fn locate(&self, name: &String) -> (r: Option<usize>)
        ensures
            match r {
                Some(k) => series_at(self.metrics@, name@, 0) == Some(k as int) && k
                    < self.metrics@.len() && self.metrics@[k as int].name@ == name@,
                None => series_at(self.metrics@, name@, 0) is None,
            },
    {
        let n = self.metrics.len();
        let mut k: usize = 0;
        while k < n
            invariant
                k <= n,
                n == self.metrics@.len(),
                series_at(self.metrics@, name@, 0) == series_at(self.metrics@, name@, k as int),
            decreases n - k,
        {
            if self.metrics[k].name == *name {
                return Some(k);
            }
            k = k + 1;
        }
        None
    }

    /// Records one value of a metric, starting its series if it is new.
    pub fn record(&mut self, name: &str, value: T)
        ensures
            final(self).epochs == old(self).epochs,
            match series_at(old(self).metrics@, name@, 0) {
                Some(k) => {
                    &&& final(self).metrics@.len() == old(self).metrics@.len()
                    &&& final(self).metrics@[k].name@ == name@
                    &&& final(self).metrics@[k].values@ == old(self).metrics@[k].values@.push(value)
                    &&& forall|i: int|
                        0 <= i < old(self).metrics@.len() && i != k ==> final(self).metrics@[i]
                            == old(self).metrics@[i]
                },
                None => {
                    &&& final(self).metrics@.len() == old(self).metrics@.len() + 1
                    &&& final(self).metrics@.last().name@ == name@
                    &&& final(self).metrics@.last().values@ == seq![value]
                    &&& forall|i: int|
                        0 <= i < old(self).metrics@.len() ==> final(self).metrics@[i] == old(self).metrics@[i]
                },
            },
            forall|other: Seq<char>| #[trigger]
                values_of(final(self).metrics@, other) == after_record(
                    values_of(old(self).metrics@, other),
                    other == name@,
                    value,
                ),
    {
        let key = name.to_owned();
        match self.locate(&key) {
            Some(k) => {
                self.metrics[k].values.push(value);
                proof {
                    let a = old(self).metrics@;
                    let b = self.metrics@;
                    assert forall|other: Seq<char>| #[trigger]
                        values_of(b, other) == after_record(
                            values_of(a, other),
                            other == name@,
                            value,
                        ) by {
                        lemma_series_by_names(a, b, other, 0);
                        lemma_series_found(a, other, 0);
                    }
                }
            },
            None => {
                let mut values: Vec<T> = Vec::new();
                values.push(value);
                self.metrics.push(MetricSeries { name: key, values });
                proof {
                    let a = old(self).metrics@;
                    let b = self.metrics@;
                    assert forall|other: Seq<char>| #[trigger]
                        values_of(b, other) == after_record(
                            values_of(a, other),
                            other == name@,
                            value,
                        ) by {
                        lemma_series_pushed(a, b, other, 0);
                        lemma_series_found(a, other, 0);
                    }
                }
            },
        }
    }

    /// Records the end of an epoch with the values its metrics took: the
    /// entries of `logs` are recorded in their order.
    pub fn update(&mut self, epoch: usize, logs: &Vec<(String, T)>)
        ensures
            final(self).epochs@ == old(self).epochs@.push(epoch),
            forall|name: Seq<char>| #[trigger]
                values_of(final(self).metrics@, name) == after_logs(
                    values_of(old(self).metrics@, name),
                    logs@,
                    name,
                    logs@.len(),
                ),
    {
        self.epochs.push(epoch);
        let n = logs.len();
        let mut i: usize = 0;
        while i < n
            invariant
                i <= n,
                n == logs@.len(),
                self.epochs@ == old(self).epochs@.push(epoch),
                forall|name: Seq<char>| #[trigger]
                    values_of(self.metrics@, name) == after_logs(
                        values_of(old(self).metrics@, name),
                        logs@,
                        name,
                        i as nat,
                    ),
            decreases n - i,
        {
            self.record(logs[i].0.as_str(), logs[i].1);
            i = i + 1;
        }
    }

    /// The values that the metric of the given name took.
    pub fn get_metric_history(&self, name: &str) -> (r: Option<&Vec<T>>)
        ensures
            match series_at(self.metrics@, name@, 0) {
                Some(k) => r matches Some(v) && v@ == self.metrics@[k].values@,
                None => r is None,
            },
    {
        let key = name.to_owned();
        match self.locate(&key) {
            Some(k) => Some(&self.metrics[k].values),
            None => None,
        }
    }
}

} // verus!
