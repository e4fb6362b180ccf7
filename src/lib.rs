//! A state-vector simulator core: qubit addressing, gate kernels over an
//! abstract amplitude type, and circuits that thread a state through gates.
pub mod bits;
pub mod errors;
pub mod validation;
pub mod kernels;
pub mod state;
pub mod operator;
pub mod measurement;
pub mod gate;
pub mod circuit;
pub mod subroutine;
pub mod builder;
pub mod dispatch;
pub mod laws;
