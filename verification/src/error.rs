//! Errors. None of them is retried: each ends the run.

use vstd::prelude::*;
use crate::shape::ShapeError;

verus! {

/// Which of the three dropout points of the model a probability belongs to.
#[derive(Clone, Copy, Debug, PartialEq, Eq, Structural)]
pub enum DropoutSlot {
    First,
    Second,
    Third,
}

/// A hyperparameter that no run can start with.
#[derive(Clone, Copy, Debug, PartialEq, Eq, Structural)]
pub enum ConfigurationError {
    /// The class count is zero.
    NoClasses,
    /// The hidden layer has no units.
    NoHiddenUnits,
    /// A dropout probability is not a number in `[0, 1]`.
    DropoutOutOfRange { slot: DropoutSlot },
    /// The batch size is zero.
    ZeroBatchSize,
    /// The layers do not fit each other on the configured input resolution.
    Structure { defect: ShapeError },
}

/// A label outside `[0, num_classes)`.
#[derive(Clone, Copy, Debug, PartialEq, Eq, Structural)]
pub struct DataRangeError {
    /// Position of the first such label.
    pub index: usize,
    /// The label found there.
    pub label: i64,
}

/// Any error of this crate.
#[derive(Clone, Copy, Debug, PartialEq, Eq, Structural)]
pub enum Error {
    Configuration(ConfigurationError),
    Shape(ShapeError),
    DataRange(DataRangeError),
}

} // verus!
