//! Running totals of metrics and their averages.

use vstd::prelude::*;
use vstd::string::*;
use crate::scalar::Scalar;

verus! {

/// The running sum and count of one metric.
pub struct MetricTotal<T> {
    pub name: String,
    pub sum: T,
    pub count: usize,
}

/// Running sums of named metrics, for their averages.
pub struct RunningMetrics<T> {
    pub metrics: Vec<MetricTotal<T>>,
}

/// The position of the metric of the given name among the entries from
/// `from` on, if there is one.
pub open spec fn position<T: Scalar>(metrics: Seq<MetricTotal<T>>, name: Seq<char>, from: int) -> Option<
    int,
>
    decreases metrics.len() - from,
{
    if from < 0 || from >= metrics.len() {
        None
    } else if metrics[from].name@ == name {
        Some(from)
    } else {
        position(metrics, name, from + 1)
    }
}

/// The average of a metric: its sum over its count.
pub open spec fn average_of<T: Scalar>(total: MetricTotal<T>) -> T {
    total.sum.over_spec(T::count_spec(total.count))
}

impl<T: Scalar> RunningMetrics<T> {
    /// No name occurs twice.
    pub open spec fn wf(&self) -> bool {
        forall|i: int, j: int|
            0 <= i < j < self.metrics@.len() ==> (#[trigger] self.metrics@[i]).name@ != (
            #[trigger] self.metrics@[j]).name@
    }

    pub fn new() -> (r: Self)
        ensures
            r.wf(),
            r.metrics@.len() == 0,
    {
        RunningMetrics { metrics: Vec::new() }
    }

    fn locate(&self, name: &String) -> (r: Option<usize>)
        ensures
            match r {
                Some(k) => position(self.metrics@, name@, 0) == Some(k as int) && k
                    < self.metrics@.len() && self.metrics@[k as int].name@ == name@,
                None => position(self.metrics@, name@, 0) is None && forall|i: int|
                    0 <= i < self.metrics@.len() ==> (#[trigger] self.metrics@[i]).name@ != name@,
            },
    {
        let n = self.metrics.len();
        let mut k: usize = 0;
        while k < n
            invariant
                k <= n,
                n == self.metrics@.len(),
                position(self.metrics@, name@, 0) == position(self.metrics@, name@, k as int),
                forall|i: int| 0 <= i < k ==> (#[trigger] self.metrics@[i]).name@ != name@,
            decreases n - k,
        {
            if self.metrics[k].name == *name {
                return Some(k);
            }
            k = k + 1;
        }
        None
    }

    /// Adds a value to the sum of the metric of the given name and counts
    /// it; a metric seen for the first time starts from zero. A count that
    /// cannot grow stays as it is.
    pub fn update(&mut self, name: &str, value: T)
        requires
            old(self).wf(),
        ensures
            final(self).wf(),
            match position(old(self).metrics@, name@, 0) {
                Some(k) => {
                    &&& final(self).metrics@.len() == old(self).metrics@.len()
                    &&& final(self).metrics@[k].name@ == name@
                    &&& final(self).metrics@[k].sum == old(self).metrics@[k].sum.plus_spec(value)
                    &&& final(self).metrics@[k].count == if old(self).metrics@[k].count
                        < usize::MAX {
                        (old(self).metrics@[k].count + 1) as usize
                    } else {
                        usize::MAX
                    }
                    &&& forall|i: int|
                        0 <= i < old(self).metrics@.len() && i != k ==> final(self).metrics@[i]
                            == old(self).metrics@[i]
                },
                None => {
                    &&& final(self).metrics@.len() == old(self).metrics@.len() + 1
                    &&& final(self).metrics@.last().name@ == name@
                    &&& final(self).metrics@.last().sum == T::zero_spec().plus_spec(value)
                    &&& final(self).metrics@.last().count == 1
                    &&& forall|i: int|
                        0 <= i < old(self).metrics@.len() ==> final(self).metrics@[i] == old(self).metrics@[i]
                },
            },
    {
        let key = name.to_owned();
        match self.locate(&key) {
            Some(k) => {
                let sum = self.metrics[k].sum.plus(value);
                self.metrics[k].sum = sum;
                if self.metrics[k].count < usize::MAX {
                    self.metrics[k].count = self.metrics[k].count + 1;
                }
            },
            None => {
                self.metrics.push(MetricTotal { name: key, sum: T::zero().plus(value), count: 1 });
            },
        }
    }

    /// The average of every metric, in the order in which the metrics were
    /// first seen.
    pub fn get_average(&self) -> (r: Vec<(String, T)>)
        ensures
            r@.len() == self.metrics@.len(),
            forall|i: int|
                0 <= i < r@.len() ==> (#[trigger] r@[i]).0@ == self.metrics@[i].name@ && r@[i].1
                    == average_of(self.metrics@[i]),
    {
        let n = self.metrics.len();
        let mut out: Vec<(String, T)> = Vec::new();
        let mut i: usize = 0;
        while i < n
            invariant
                i <= n,
                n == self.metrics@.len(),
                out@.len() == i,
                forall|k: int|
                    0 <= k < i ==> (#[trigger] out@[k]).0@ == self.metrics@[k].name@ && out@[k].1
                        == average_of(self.metrics@[k]),
            decreases n - i,
        {
            let entry = &self.metrics[i];
            out.push((entry.name.clone(), entry.sum.over(T::count(entry.count))));
            i = i + 1;
        }
        out
    }

    /// The same as `get_average`.
    pub fn get_current(&self) -> (r: Vec<(String, T)>)
        ensures
            r@.len() == self.metrics@.len(),
            forall|i: int|
                0 <= i < r@.len() ==> (#[trigger] r@[i]).0@ == self.metrics@[i].name@ && r@[i].1
                    == average_of(self.metrics@[i]),
    {
        self.get_average()
    }
}

} // verus!
