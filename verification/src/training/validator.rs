//! The points of a training run at which callbacks are called.

use vstd::prelude::*;

verus! {

/// The points of a training run at which callbacks are called.
#[derive(Clone, Copy, Debug, PartialEq, Eq, Structural)]
pub enum CallbackEvent {
    TrainBegin,
    TrainEnd,
    EpochBegin,
    EpochEnd,
    BatchBegin,
    BatchEnd,
}

} // verus!
