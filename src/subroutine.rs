//! A reusable fragment of gates, shaped like a circuit but never executed.
use vstd::prelude::*;
use crate::gate::Gate;

verus! {

/// An ordered list of gates over `num_qubits` qubits, to be spliced into
/// circuits.
#[derive(Debug)]
pub struct Subroutine<T, M> {
    /// The gates, in order.
    pub gates: Vec<Gate<T, M>>,
    /// The number of qubits the fragment was written for.
    pub num_qubits: usize,
}

impl<T: Copy, M: Copy> Subroutine<T, M> {
    /// An empty fragment over `num_qubits` qubits.
    pub fn new(num_qubits: usize) -> (r: Self)
        ensures
            r.num_qubits == num_qubits,
            r.gates@ == Seq::<Gate<T, M>>::empty(),
    {
        Subroutine { gates: Vec::new(), num_qubits }
    }

    /// A fragment made of `gates`.
    pub fn with_gates(gates: Vec<Gate<T, M>>, num_qubits: usize) -> (r: Self)
        ensures
            r.num_qubits == num_qubits,
            r.gates@ == gates@,
    {
        Subroutine { gates, num_qubits }
    }

    /// Appends `gate`.
    pub fn add_gate(&mut self, gate: Gate<T, M>)
        ensures
            final(self).gates@ == old(self).gates@.push(gate),
            final(self).num_qubits == old(self).num_qubits,
    {
        self.gates.push(gate);
    }

    /// Appends all of `gates`, in order.
    pub fn add_gates(&mut self, gates: Vec<Gate<T, M>>)
        ensures
            final(self).gates@ == old(self).gates@ + gates@,
            final(self).num_qubits == old(self).num_qubits,
    {
        let mut gates = gates;
        self.gates.append(&mut gates);
    }
}

} // verus!
