//! The failures that the library reports.
use vstd::prelude::*;

verus! {

/// A failure reported by the call that detected it.
#[derive(Debug, Clone, Copy, PartialEq, Eq, Structural)]
pub enum Error {
    /// A target or control list has the wrong length, or a state has a
    /// qubit count other than the one expected; holds the offending count.
    InvalidNumberOfQubits(usize),
    /// A qubit index out of range, or a target named twice: the index and
    /// the register size.
    InvalidQubitIndex(usize, usize),
    /// A qubit used as a control and as a target: the control, then the target.
    OverlappingControlAndTargetQubits(usize, usize),
    /// The same qubit given twice as a control of a gate with fixed controls.
    DuplicateControlQubit(usize),
    /// A matrix whose rows are not orthonormal within tolerance.
    NonUnitaryMatrix,
    /// A measurement collapse onto an outcome of vanishing probability.
    NumericalError,
}

} // verus!
