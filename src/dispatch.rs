//! The choice of execution tier for a kernel, by problem size.
use vstd::prelude::*;

verus! {

/// From this many qubits on, kernels fan out over a worker pool.
pub const PARALLEL_THRESHOLD_NUM_QUBITS: usize = 10;

/// From this many qubits on, kernels go to an accelerator where one is present.
pub const ACCELERATOR_THRESHOLD_NUM_QUBITS: usize = 15;

/// Where a kernel runs.
#[derive(Debug, Clone, Copy, PartialEq, Eq, Structural)]
pub enum Backend {
    /// One loop over the basis indices.
    Sequential,
    /// Work items over the basis indices, spread over a worker pool.
    Parallel,
    /// An offloaded device kernel.
    Accelerator,
}

/// The tier for a state of `n` qubits.
pub open spec fn backend_for(n: usize, accelerator_available: bool) -> Backend {
    if n < PARALLEL_THRESHOLD_NUM_QUBITS {
        Backend::Sequential
    } else if n >= ACCELERATOR_THRESHOLD_NUM_QUBITS && accelerator_available {
        Backend::Accelerator
    } else {
        Backend::Parallel
    }
}

/// Chooses the tier for a state of `num_qubits` qubits: sequential below
/// the parallel threshold, the accelerator from its threshold on when one
/// is available, the worker pool otherwise.
pub fn select_backend(num_qubits: usize, accelerator_available: bool) -> (r: Backend)
    ensures
        r == backend_for(num_qubits, accelerator_available),
{
    if num_qubits < PARALLEL_THRESHOLD_NUM_QUBITS {
        Backend::Sequential
    } else if num_qubits >= ACCELERATOR_THRESHOLD_NUM_QUBITS && accelerator_available {
        Backend::Accelerator
    } else {
        Backend::Parallel
    }
}

} // verus!
