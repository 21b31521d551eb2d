//! When a checkpoint is due and which checkpoints may go.

use vstd::prelude::*;
use vstd::string::*;
use crate::scalar::Scalar;

verus! {

/// Whether the monitored value is to become small or large.
#[derive(Clone, Copy, Debug, PartialEq, Eq, Structural)]
pub enum CheckpointMode {
    Min,
    Max,
}

/// How a checkpoint is written.
#[derive(Clone, Copy, Debug, PartialEq, Eq, Structural)]
pub enum SaveFormat {
    Json,
    Binary,
}

/// The rules by which checkpoints are taken: which metric is monitored,
/// whether only improvements are saved, and the best value seen.
pub struct ModelCheckpoint<T> {
    pub filepath: String,
    pub monitor: String,
    pub save_best_only: bool,
    pub save_weights_only: bool,
    pub mode: CheckpointMode,
    pub best_value: T,
    pub save_format: SaveFormat,
    pub verbose: bool,
}

/// Whether `a` is better than `b`: smaller when small values are wanted,
/// larger otherwise.
pub open spec fn better<T: Scalar>(mode: CheckpointMode, a: T, b: T) -> bool {
    match mode {
        CheckpointMode::Min => b.exceeds_spec(a),
        CheckpointMode::Max => a.exceeds_spec(b),
    }
}

/// The number of the first `n` values that come before value `i` when the
/// values are ordered from best to worst, values that are not better than
/// one another keeping their order.
pub open spec fn ahead<T: Scalar>(mode: CheckpointMode, values: Seq<T>, i: int, n: nat) -> nat
    decreases n,
{
    if n == 0 {
        0
    } else {
        let j = n - 1;
        ahead(mode, values, i, (n - 1) as nat) + if better(mode, values[j], values[i]) || (j < i
            && !better(mode, values[i], values[j])) {
            1nat
        } else {
            0nat
        }
    }
}

/// The place of value `i` in that order.
pub open spec fn rank<T: Scalar>(mode: CheckpointMode, values: Seq<T>, i: int) -> nat {
    ahead(mode, values, i, values.len())
}

impl<T: Scalar> ModelCheckpoint<T> {
    /// Rules that start from the worst value there is, write in the binary
    /// format and report what they do.
    pub fn new(
        filepath: String,
        monitor: String,
        save_best_only: bool,
        save_weights_only: bool,
        mode: CheckpointMode,
    ) -> (r: Self)
        ensures
            r.filepath == filepath,
            r.monitor == monitor,
            r.save_best_only == save_best_only,
            r.save_weights_only == save_weights_only,
            r.mode == mode,
            r.best_value == match mode {
                CheckpointMode::Min => T::highest_spec(),
                CheckpointMode::Max => T::lowest_spec(),
            },
            r.save_format == SaveFormat::Binary,
            r.verbose,
    {
        let best_value = match mode {
            CheckpointMode::Min => T::highest(),
            CheckpointMode::Max => T::lowest(),
        };
        ModelCheckpoint {
            filepath,
            monitor,
            save_best_only,
            save_weights_only,
            mode,
            best_value,
            save_format: SaveFormat::Binary,
            verbose: true,
        }
    }

    pub fn with_save_format(self, format: SaveFormat) -> (r: Self)
        ensures
            r.save_format == format,
            r.filepath == self.filepath,
            r.monitor == self.monitor,
            r.save_best_only == self.save_best_only,
            r.save_weights_only == self.save_weights_only,
            r.mode == self.mode,
            r.best_value == self.best_value,
            r.verbose == self.verbose,
    {
        let mut next = self;
        next.save_format = format;
        next
    }

    pub fn with_verbose(self, verbose: bool) -> (r: Self)
        ensures
            r.verbose == verbose,
            r.filepath == self.filepath,
            r.monitor == self.monitor,
            r.save_best_only == self.save_best_only,
            r.save_weights_only == self.save_weights_only,
            r.mode == self.mode,
            r.best_value == self.best_value,
            r.save_format == self.save_format,
    {
        let mut next = self;
        next.verbose = verbose;
        next
    }

    /// Whether `current` is better than the best value seen.
    pub fn is_better(&self, current: T) -> (r: bool)
        ensures
            r == better(self.mode, current, self.best_value),
    {
        match self.mode {
            CheckpointMode::Min => self.best_value.exceeds(current),
            CheckpointMode::Max => current.exceeds(self.best_value),
        }
    }

    /// Takes note of the monitored value at the end of an epoch and says
    /// whether a checkpoint is to be saved: always, or only when the value
    /// is better than the best seen. When a checkpoint is to be saved the
    /// value becomes the best seen.
    pub fn observe(&mut self, current: T) -> (save: bool)
        ensures
            save == (!old(self).save_best_only || better(
                old(self).mode,
                current,
                old(self).best_value,
            )),
            final(self).best_value == if save {
                current
            } else {
                old(self).best_value
            },
            final(self).filepath == old(self).filepath,
            final(self).monitor == old(self).monitor,
            final(self).save_best_only == old(self).save_best_only,
            final(self).save_weights_only == old(self).save_weights_only,
            final(self).mode == old(self).mode,
            final(self).save_format == old(self).save_format,
            final(self).verbose == old(self).verbose,
    {
        let save = !self.save_best_only || self.is_better(current);
        if save {
            self.best_value = current;
        }
        save
    }

    /// The checkpoints to remove so that only the best `keep_best_n`
    /// remain: the positions, in increasing order, of the values whose
    /// place from best to worst is `keep_best_n` or later.
    pub fn stale(&self, values: &Vec<T>, keep_best_n: usize) -> (r: Vec<usize>)
        ensures
            forall|k: int| 0 <= k < r@.len() ==> (#[trigger] r@[k]) < values@.len(),
            forall|k: int, l: int| 0 <= k < l < r@.len() ==> r@[k] < r@[l],
            forall|i: int|
                0 <= i < values@.len() ==> (r@.contains(i as usize) <==> rank(self.mode, values@, i)
                    >= keep_best_n),
    {
        let n = values.len();
        let mut out: Vec<usize> = Vec::new();
        let mut i: usize = 0;
        while i < n
            invariant
                i <= n,
                n == values@.len(),
                forall|k: int| 0 <= k < out@.len() ==> (#[trigger] out@[k]) < i,
                forall|k: int, l: int| 0 <= k < l < out@.len() ==> out@[k] < out@[l],
                forall|j: int|
                    0 <= j < i ==> (out@.contains(j as usize) <==> rank(self.mode, values@, j)
                        >= keep_best_n),
            decreases n - i,
        {
            let mut count: usize = 0;
            let mut j: usize = 0;
            while j < n
                invariant
                    j <= n,
                    i < n,
                    n == values@.len(),
                    count == ahead(self.mode, values@, i as int, j as nat),
                    count <= j,
                decreases n - j,
            {
                let comes_first = match self.mode {
                    CheckpointMode::Min => values[i].exceeds(values[j]) || (j < i
                        && !values[j].exceeds(values[i])),
                    CheckpointMode::Max => values[j].exceeds(values[i]) || (j < i
                        && !values[i].exceeds(values[j])),
                };
                if comes_first {
                    count = count + 1;
                }
                j = j + 1;
            }
            let ghost before = out@;
            if count >= keep_best_n {
                out.push(i);
                proof {
                    assert(out@.last() == i);
                    assert forall|j: int| 0 <= j < i + 1 implies (out@.contains(j as usize) <==> rank(
                        self.mode,
                        values@,
                        j,
                    ) >= keep_best_n) by {
                        if j < i {
                            if before.contains(j as usize) {
                                let k = choose|k: int| 0 <= k < before.len() && before[k] == j as usize;
                                assert(out@[k] == j as usize);
                            }
                            if out@.contains(j as usize) {
                                let k = choose|k: int| 0 <= k < out@.len() && out@[k] == j as usize;
                                assert(k < before.len());
                                assert(before[k] == j as usize);
                            }
                        } else {
                            assert(out@[out@.len() - 1] == i);
                        }
                    }
                }
            } else {
                proof {
                    assert(!out@.contains(i)) by {
                        if out@.contains(i) {
                            let k = choose|k: int| 0 <= k < out@.len() && out@[k] == i;
                            assert(out@[k] < i);
                        }
                    }
                }
            }
            i = i + 1;
        }
        out
    }
}

} // verus!
