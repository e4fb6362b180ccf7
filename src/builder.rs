//! A builder that collects gates for a circuit, one call per gate family.
use vstd::prelude::*;
use crate::circuit::{all_gates_in_range, first_gate_range_error, lemma_first_gate_range_error, validate_all_gates, Circuit};
use crate::errors::Error;
use crate::gate::{gate_in_range, is_operator_gate, Gate};
use crate::measurement::MeasurementBasis;
use crate::operator::{Operator, Pauli};
use crate::subroutine::Subroutine;

verus! {

/// Gates collected so far for a circuit of `num_qubits` qubits.
pub struct CircuitBuilder<T, M> {
    /// The gates added so far, in order.
    pub gates: Vec<Gate<T, M>>,
    /// The number of qubits of the circuit being built.
    pub num_qubits: usize,
}

/// `cur` is `prev` with one gate of `op` appended per entry of `targets`,
/// each on that single target and under `controls`.
pub open spec fn pushed_each<T: Copy, M: Copy>(
    prev: CircuitBuilder<T, M>,
    cur: CircuitBuilder<T, M>,
    op: Operator<T, M>,
    targets: Seq<usize>,
    controls: Seq<usize>,
) -> bool {
    &&& cur.num_qubits == prev.num_qubits
    &&& cur.gates@.len() == prev.gates@.len() + targets.len()
    &&& cur.gates@.take(prev.gates@.len() as int) == prev.gates@
    &&& forall|k: int|
        0 <= k < targets.len() ==> is_operator_gate(
            #[trigger] cur.gates@[prev.gates@.len() + k],
            op,
            seq![targets[k]],
            controls,
        )
}

/// `cur` is `prev` with `gate` appended.
pub open spec fn pushed_gate<T: Copy, M: Copy>(
    prev: CircuitBuilder<T, M>,
    cur: CircuitBuilder<T, M>,
    gate: Gate<T, M>,
) -> bool {
    cur.num_qubits == prev.num_qubits && cur.gates@ == prev.gates@.push(gate)
}

impl<T: Copy, M: Copy> CircuitBuilder<T, M> {
    /// An empty builder for a circuit of `num_qubits` qubits.
    pub fn new(num_qubits: usize) -> (r: Self)
        ensures
            r.num_qubits == num_qubits,
            r.gates@ == Seq::<Gate<T, M>>::empty(),
    {
        CircuitBuilder { gates: Vec::new(), num_qubits }
    }

    /// Adds `gate`.
    pub fn add_gate(&mut self, gate: Gate<T, M>) -> (r: &mut Self)
        ensures
            pushed_gate(*old(self), *r, gate),
            *final(self) == *final(r),
    {
        self.gates.push(gate);
        self
    }

    /// Adds all of `gates`, in order.
    pub fn add_gates(&mut self, gates: Vec<Gate<T, M>>) -> (r: &mut Self)
        ensures
            r.num_qubits == old(self).num_qubits,
            r.gates@ == old(self).gates@ + gates@,
            *final(self) == *final(r),
    {
        let mut gates = gates;
        self.gates.append(&mut gates);
        self
    }

    /// Adds one gate of `op` per qubit of `targets`, each under `controls`.
    fn push_each(&mut self, op: Operator<T, M>, targets: &Vec<usize>, controls: &Vec<usize>) -> (r:
        &mut Self)
        ensures
            pushed_each(*old(self), *r, op, targets@, controls@),
            *final(self) == *final(r),
    {
        let mut gates = Gate::controlled_gates(op, targets, controls);
        let ghost added = gates@;
        let ghost before = self.gates@;
        self.gates.append(&mut gates);
        assert(self.gates@.take(before.len() as int) =~= before);
        assert forall|k: int| 0 <= k < targets@.len() implies is_operator_gate(
            #[trigger] self.gates@[before.len() + k],
            op,
            seq![targets@[k]],
            controls@,
        ) by {
            assert(self.gates@[before.len() + k] == added[k]);
        }
        self
    }

    /// A circuit of a copy of the gates added so far, which stay in the
    /// builder; fails as `Circuit::with_gates` does.
    pub fn build(&mut self) -> (r: Result<Circuit<T, M>, Error>)
        ensures
            *final(self) == *old(self),
            r is Ok <==> all_gates_in_range(old(self).gates@, old(self).num_qubits),
            r is Err ==> r->Err_0 == first_gate_range_error(
                old(self).gates@,
                old(self).num_qubits,
            )->Some_0,
            r is Ok ==> r->Ok_0.wf() && r->Ok_0.num_qubits == old(self).num_qubits
                && r->Ok_0.gates@.len() == old(self).gates@.len() && forall|k: int|
                0 <= k < old(self).gates@.len() ==> old(self).gates@[k].same_as(
                    #[trigger] r->Ok_0.gates@[k],
                ),
    {
        proof {
            lemma_first_gate_range_error(self.gates@, self.num_qubits);
        }
        validate_all_gates(&self.gates, self.num_qubits)?;
        let mut copies: Vec<Gate<T, M>> = Vec::new();
        let mut k: usize = 0;
        while k < self.gates.len()
            invariant
                k <= self.gates@.len(),
                copies@.len() == k,
                all_gates_in_range(self.gates@, self.num_qubits),
                forall|m: int| 0 <= m < k ==> self.gates@[m].same_as(#[trigger] copies@[m]),
                forall|m: int| 0 <= m < k ==> gate_in_range(#[trigger] copies@[m], self.num_qubits),
            decreases self.gates@.len() - k,
        {
            let g = self.gates[k].duplicate();
            proof {
                assert(gate_in_range(self.gates@[k as int], self.num_qubits));
            }
            copies.push(g);
            k += 1;
        }
        Ok(Circuit { gates: copies, num_qubits: self.num_qubits })
    }

    /// A circuit of the gates added so far, which leave the builder empty;
    /// fails as `Circuit::with_gates` does.
    pub fn build_final(&mut self) -> (r: Result<Circuit<T, M>, Error>)
        ensures
            final(self).gates@ == Seq::<Gate<T, M>>::empty(),
            final(self).num_qubits == old(self).num_qubits,
            r is Ok <==> all_gates_in_range(old(self).gates@, old(self).num_qubits),
            r is Ok ==> r->Ok_0.wf() && r->Ok_0.gates@ == old(self).gates@ && r->Ok_0.num_qubits
                == old(self).num_qubits,
            r is Err ==> r->Err_0 == first_gate_range_error(
                old(self).gates@,
                old(self).num_qubits,
            )->Some_0,
    {
        let mut gates: Vec<Gate<T, M>> = Vec::new();
        std::mem::swap(&mut gates, &mut self.gates);
        Circuit::with_gates(gates, self.num_qubits)
    }

    /// A subroutine of the gates added so far, which leave the builder empty.
    pub fn build_subroutine(&mut self) -> (r: Subroutine<T, M>)
        ensures
            final(self).gates@ == Seq::<Gate<T, M>>::empty(),
            final(self).num_qubits == old(self).num_qubits,
            r.gates@ == old(self).gates@,
            r.num_qubits == old(self).num_qubits,
    {
        let mut gates: Vec<Gate<T, M>> = Vec::new();
        std::mem::swap(&mut gates, &mut self.gates);
        Subroutine::with_gates(gates, self.num_qubits)
    }

    /// Adds the gates of `subroutine`, in order.
    pub fn add_subroutine(&mut self, subroutine: Subroutine<T, M>) -> (r: &mut Self)
        ensures
            r.num_qubits == old(self).num_qubits,
            r.gates@ == old(self).gates@ + subroutine.gates@,
            *final(self) == *final(r),
    {
        self.add_gates(subroutine.gates)
    }

    /// Adds a Hadamard gate on `qubit`.
    pub fn h_gate(&mut self, qubit: usize) -> (r: &mut Self)
        ensures
            pushed_each(*old(self), *r, Operator::Hadamard, seq![qubit], Seq::empty()),
            *final(self) == *final(r),
    {
        let qubits = vec![qubit];
        assert(qubits@ =~= seq![qubit]);
        self.push_each(Operator::Hadamard, &qubits, &Vec::new())
    }

    /// Adds a Hadamard gate on each of `qubits`.
    pub fn h_gates(&mut self, qubits: Vec<usize>) -> (r: &mut Self)
        ensures
            pushed_each(*old(self), *r, Operator::Hadamard, qubits@, Seq::empty()),
            *final(self) == *final(r),
    {
        self.push_each(Operator::Hadamard, &qubits, &Vec::new())
    }

    /// Adds a Hadamard gate on each of `target_qubits`, each under all of
    /// `control_qubits`.
    pub fn ch_gates(&mut self, target_qubits: Vec<usize>, control_qubits: Vec<usize>) -> (r:
        &mut Self)
        ensures
            pushed_each(*old(self), *r, Operator::Hadamard, target_qubits@, control_qubits@),
            *final(self) == *final(r),
    {
        self.push_each(Operator::Hadamard, &target_qubits, &control_qubits)
    }

    /// Adds a Pauli-X gate on `qubit`.
    pub fn x_gate(&mut self, qubit: usize) -> (r: &mut Self)
        ensures
            pushed_each(*old(self), *r, Operator::Pauli(Pauli::X), seq![qubit], Seq::empty()),
            *final(self) == *final(r),
    {
        let qubits = vec![qubit];
        assert(qubits@ =~= seq![qubit]);
        self.push_each(Operator::Pauli(Pauli::X), &qubits, &Vec::new())
    }

    /// Adds a Pauli-X gate on each of `qubits`.
    pub fn x_gates(&mut self, qubits: Vec<usize>) -> (r: &mut Self)
        ensures
            pushed_each(*old(self), *r, Operator::Pauli(Pauli::X), qubits@, Seq::empty()),
            *final(self) == *final(r),
    {
        self.push_each(Operator::Pauli(Pauli::X), &qubits, &Vec::new())
    }

    /// Adds a Pauli-X gate on each of `target_qubits`, each under all of
    /// `control_qubits`.
    pub fn cx_gates(&mut self, target_qubits: Vec<usize>, control_qubits: Vec<usize>) -> (r:
        &mut Self)
        ensures
            pushed_each(*old(self), *r, Operator::Pauli(Pauli::X), target_qubits@, control_qubits@),
            *final(self) == *final(r),
    {
        self.push_each(Operator::Pauli(Pauli::X), &target_qubits, &control_qubits)
    }

    /// Adds a Pauli-Y gate on `qubit`.
    pub fn y_gate(&mut self, qubit: usize) -> (r: &mut Self)
        ensures
            pushed_each(*old(self), *r, Operator::Pauli(Pauli::Y), seq![qubit], Seq::empty()),
            *final(self) == *final(r),
    {
        let qubits = vec![qubit];
        assert(qubits@ =~= seq![qubit]);
        self.push_each(Operator::Pauli(Pauli::Y), &qubits, &Vec::new())
    }

    /// Adds a Pauli-Y gate on each of `qubits`.
    pub fn y_gates(&mut self, qubits: Vec<usize>) -> (r: &mut Self)
        ensures
            pushed_each(*old(self), *r, Operator::Pauli(Pauli::Y), qubits@, Seq::empty()),
            *final(self) == *final(r),
    {
        self.push_each(Operator::Pauli(Pauli::Y), &qubits, &Vec::new())
    }

    /// Adds a Pauli-Y gate on each of `target_qubits`, each under all of
    /// `control_qubits`.
    pub fn cy_gates(&mut self, target_qubits: Vec<usize>, control_qubits: Vec<usize>) -> (r:
        &mut Self)
        ensures
            pushed_each(*old(self), *r, Operator::Pauli(Pauli::Y), target_qubits@, control_qubits@),
            *final(self) == *final(r),
    {
        self.push_each(Operator::Pauli(Pauli::Y), &target_qubits, &control_qubits)
    }

    /// Adds a Pauli-Z gate on `qubit`.
    pub fn z_gate(&mut self, qubit: usize) -> (r: &mut Self)
        ensures
            pushed_each(*old(self), *r, Operator::Pauli(Pauli::Z), seq![qubit], Seq::empty()),
            *final(self) == *final(r),
    {
        let qubits = vec![qubit];
        assert(qubits@ =~= seq![qubit]);
        self.push_each(Operator::Pauli(Pauli::Z), &qubits, &Vec::new())
    }

    /// Adds a Pauli-Z gate on each of `qubits`.
    pub fn z_gates(&mut self, qubits: Vec<usize>) -> (r: &mut Self)
        ensures
            pushed_each(*old(self), *r, Operator::Pauli(Pauli::Z), qubits@, Seq::empty()),
            *final(self) == *final(r),
    {
        self.push_each(Operator::Pauli(Pauli::Z), &qubits, &Vec::new())
    }

    /// Adds a Pauli-Z gate on each of `target_qubits`, each under all of
    /// `control_qubits`.
    pub fn cz_gates(&mut self, target_qubits: Vec<usize>, control_qubits: Vec<usize>) -> (r:
        &mut Self)
        ensures
            pushed_each(*old(self), *r, Operator::Pauli(Pauli::Z), target_qubits@, control_qubits@),
            *final(self) == *final(r),
    {
        self.push_each(Operator::Pauli(Pauli::Z), &target_qubits, &control_qubits)
    }

    /// Adds a identity gate on `qubit`.
    pub fn id_gate(&mut self, qubit: usize) -> (r: &mut Self)
        ensures
            pushed_each(*old(self), *r, Operator::Identity, seq![qubit], Seq::empty()),
            *final(self) == *final(r),
    {
        let qubits = vec![qubit];
        assert(qubits@ =~= seq![qubit]);
        self.push_each(Operator::Identity, &qubits, &Vec::new())
    }

    /// Adds a identity gate on each of `qubits`.
    pub fn id_gates(&mut self, qubits: Vec<usize>) -> (r: &mut Self)
        ensures
            pushed_each(*old(self), *r, Operator::Identity, qubits@, Seq::empty()),
            *final(self) == *final(r),
    {
        self.push_each(Operator::Identity, &qubits, &Vec::new())
    }

    /// Adds a identity gate on each of `target_qubits`, each under all of
    /// `control_qubits`.
    pub fn ci_gates(&mut self, target_qubits: Vec<usize>, control_qubits: Vec<usize>) -> (r:
        &mut Self)
        ensures
            pushed_each(*old(self), *r, Operator::Identity, target_qubits@, control_qubits@),
            *final(self) == *final(r),
    {
        self.push_each(Operator::Identity, &target_qubits, &control_qubits)
    }

    /// Adds a phase S gate on `qubit`.
    pub fn s_gate(&mut self, qubit: usize) -> (r: &mut Self)
        ensures
            pushed_each(*old(self), *r, Operator::PhaseS, seq![qubit], Seq::empty()),
            *final(self) == *final(r),
    {
        let qubits = vec![qubit];
        assert(qubits@ =~= seq![qubit]);
        self.push_each(Operator::PhaseS, &qubits, &Vec::new())
    }

    /// Adds a phase S gate on each of `qubits`.
    pub fn s_gates(&mut self, qubits: Vec<usize>) -> (r: &mut Self)
        ensures
            pushed_each(*old(self), *r, Operator::PhaseS, qubits@, Seq::empty()),
            *final(self) == *final(r),
    {
        self.push_each(Operator::PhaseS, &qubits, &Vec::new())
    }

    /// Adds a phase S gate on each of `target_qubits`, each under all of
    /// `control_qubits`.
    pub fn cs_gates(&mut self, target_qubits: Vec<usize>, control_qubits: Vec<usize>) -> (r:
        &mut Self)
        ensures
            pushed_each(*old(self), *r, Operator::PhaseS, target_qubits@, control_qubits@),
            *final(self) == *final(r),
    {
        self.push_each(Operator::PhaseS, &target_qubits, &control_qubits)
    }

    /// Adds a phase S-dagger gate on `qubit`.
    pub fn sdag_gate(&mut self, qubit: usize) -> (r: &mut Self)
        ensures
            pushed_each(*old(self), *r, Operator::PhaseSdag, seq![qubit], Seq::empty()),
            *final(self) == *final(r),
    {
        let qubits = vec![qubit];
        assert(qubits@ =~= seq![qubit]);
        self.push_each(Operator::PhaseSdag, &qubits, &Vec::new())
    }

    /// Adds a phase S-dagger gate on each of `qubits`.
    pub fn sdag_gates(&mut self, qubits: Vec<usize>) -> (r: &mut Self)
        ensures
            pushed_each(*old(self), *r, Operator::PhaseSdag, qubits@, Seq::empty()),
            *final(self) == *final(r),
    {
        self.push_each(Operator::PhaseSdag, &qubits, &Vec::new())
    }

    /// Adds a phase S-dagger gate on each of `target_qubits`, each under all of
    /// `control_qubits`.
    pub fn csdag_gates(&mut self, target_qubits: Vec<usize>, control_qubits: Vec<usize>) -> (r:
        &mut Self)
        ensures
            pushed_each(*old(self), *r, Operator::PhaseSdag, target_qubits@, control_qubits@),
            *final(self) == *final(r),
    {
        self.push_each(Operator::PhaseSdag, &target_qubits, &control_qubits)
    }

    /// Adds a phase T gate on `qubit`.
    pub fn t_gate(&mut self, qubit: usize) -> (r: &mut Self)
        ensures
            pushed_each(*old(self), *r, Operator::PhaseT, seq![qubit], Seq::empty()),
            *final(self) == *final(r),
    {
        let qubits = vec![qubit];
        assert(qubits@ =~= seq![qubit]);
        self.push_each(Operator::PhaseT, &qubits, &Vec::new())
    }

    /// Adds a phase T gate on each of `qubits`.
    pub fn t_gates(&mut self, qubits: Vec<usize>) -> (r: &mut Self)
        ensures
            pushed_each(*old(self), *r, Operator::PhaseT, qubits@, Seq::empty()),
            *final(self) == *final(r),
    {
        self.push_each(Operator::PhaseT, &qubits, &Vec::new())
    }

    /// Adds a phase T gate on each of `target_qubits`, each under all of
    /// `control_qubits`.
    pub fn ct_gates(&mut self, target_qubits: Vec<usize>, control_qubits: Vec<usize>) -> (r:
        &mut Self)
        ensures
            pushed_each(*old(self), *r, Operator::PhaseT, target_qubits@, control_qubits@),
            *final(self) == *final(r),
    {
        self.push_each(Operator::PhaseT, &target_qubits, &control_qubits)
    }

    /// Adds a phase T-dagger gate on `qubit`.
    pub fn tdag_gate(&mut self, qubit: usize) -> (r: &mut Self)
        ensures
            pushed_each(*old(self), *r, Operator::PhaseTdag, seq![qubit], Seq::empty()),
            *final(self) == *final(r),
    {
        let qubits = vec![qubit];
        assert(qubits@ =~= seq![qubit]);
        self.push_each(Operator::PhaseTdag, &qubits, &Vec::new())
    }

    /// Adds a phase T-dagger gate on each of `qubits`.
    pub fn tdag_gates(&mut self, qubits: Vec<usize>) -> (r: &mut Self)
        ensures
            pushed_each(*old(self), *r, Operator::PhaseTdag, qubits@, Seq::empty()),
            *final(self) == *final(r),
    {
        self.push_each(Operator::PhaseTdag, &qubits, &Vec::new())
    }

    /// Adds a phase T-dagger gate on each of `target_qubits`, each under all of
    /// `control_qubits`.
    pub fn ctdag_gates(&mut self, target_qubits: Vec<usize>, control_qubits: Vec<usize>) -> (r:
        &mut Self)
        ensures
            pushed_each(*old(self), *r, Operator::PhaseTdag, target_qubits@, control_qubits@),
            *final(self) == *final(r),
    {
        self.push_each(Operator::PhaseTdag, &target_qubits, &control_qubits)
    }

    /// Adds a phase-shift gate with the given angle on `qubit`.
    pub fn p_gate(&mut self, qubit: usize, angle: T) -> (r: &mut Self)
        ensures
            pushed_each(*old(self), *r, Operator::PhaseShift(angle), seq![qubit], Seq::empty()),
            *final(self) == *final(r),
    {
        let qubits = vec![qubit];
        assert(qubits@ =~= seq![qubit]);
        self.push_each(Operator::PhaseShift(angle), &qubits, &Vec::new())
    }

    /// Adds a phase-shift gate with the given angle on each of `qubits`.
    pub fn p_gates(&mut self, qubits: Vec<usize>, angle: T) -> (r: &mut Self)
        ensures
            pushed_each(*old(self), *r, Operator::PhaseShift(angle), qubits@, Seq::empty()),
            *final(self) == *final(r),
    {
        self.push_each(Operator::PhaseShift(angle), &qubits, &Vec::new())
    }

    /// Adds a phase-shift gate with the given angle on each of `target_qubits`, each under all of
    /// `control_qubits`.
    pub fn cp_gates(&mut self, target_qubits: Vec<usize>, control_qubits: Vec<usize>, angle: T) -> (r:
        &mut Self)
        ensures
            pushed_each(*old(self), *r, Operator::PhaseShift(angle), target_qubits@, control_qubits@),
            *final(self) == *final(r),
    {
        self.push_each(Operator::PhaseShift(angle), &target_qubits, &control_qubits)
    }

    /// Adds a X-rotation gate with the given angle on `qubit`.
    pub fn rx_gate(&mut self, qubit: usize, angle: T) -> (r: &mut Self)
        ensures
            pushed_each(*old(self), *r, Operator::RotateX(angle), seq![qubit], Seq::empty()),
            *final(self) == *final(r),
    {
        let qubits = vec![qubit];
        assert(qubits@ =~= seq![qubit]);
        self.push_each(Operator::RotateX(angle), &qubits, &Vec::new())
    }

    /// Adds a X-rotation gate with the given angle on each of `qubits`.
    pub fn rx_gates(&mut self, qubits: Vec<usize>, angle: T) -> (r: &mut Self)
        ensures
            pushed_each(*old(self), *r, Operator::RotateX(angle), qubits@, Seq::empty()),
            *final(self) == *final(r),
    {
        self.push_each(Operator::RotateX(angle), &qubits, &Vec::new())
    }

    /// Adds a X-rotation gate with the given angle on each of `target_qubits`, each under all of
    /// `control_qubits`.
    pub fn crx_gates(&mut self, target_qubits: Vec<usize>, control_qubits: Vec<usize>, angle: T) -> (r:
        &mut Self)
        ensures
            pushed_each(*old(self), *r, Operator::RotateX(angle), target_qubits@, control_qubits@),
            *final(self) == *final(r),
    {
        self.push_each(Operator::RotateX(angle), &target_qubits, &control_qubits)
    }

    /// Adds a Y-rotation gate with the given angle on `qubit`.
    pub fn ry_gate(&mut self, qubit: usize, angle: T) -> (r: &mut Self)
        ensures
            pushed_each(*old(self), *r, Operator::RotateY(angle), seq![qubit], Seq::empty()),
            *final(self) == *final(r),
    {
        let qubits = vec![qubit];
        assert(qubits@ =~= seq![qubit]);
        self.push_each(Operator::RotateY(angle), &qubits, &Vec::new())
    }

    /// Adds a Y-rotation gate with the given angle on each of `qubits`.
    pub fn ry_gates(&mut self, qubits: Vec<usize>, angle: T) -> (r: &mut Self)
        ensures
            pushed_each(*old(self), *r, Operator::RotateY(angle), qubits@, Seq::empty()),
            *final(self) == *final(r),
    {
        self.push_each(Operator::RotateY(angle), &qubits, &Vec::new())
    }

    /// Adds a Y-rotation gate with the given angle on each of `target_qubits`, each under all of
    /// `control_qubits`.
    pub fn cry_gates(&mut self, target_qubits: Vec<usize>, control_qubits: Vec<usize>, angle: T) -> (r:
        &mut Self)
        ensures
            pushed_each(*old(self), *r, Operator::RotateY(angle), target_qubits@, control_qubits@),
            *final(self) == *final(r),
    {
        self.push_each(Operator::RotateY(angle), &target_qubits, &control_qubits)
    }

    /// Adds a Z-rotation gate with the given angle on `qubit`.
    pub fn rz_gate(&mut self, qubit: usize, angle: T) -> (r: &mut Self)
        ensures
            pushed_each(*old(self), *r, Operator::RotateZ(angle), seq![qubit], Seq::empty()),
            *final(self) == *final(r),
    {
        let qubits = vec![qubit];
        assert(qubits@ =~= seq![qubit]);
        self.push_each(Operator::RotateZ(angle), &qubits, &Vec::new())
    }

    /// Adds a Z-rotation gate with the given angle on each of `qubits`.
    pub fn rz_gates(&mut self, qubits: Vec<usize>, angle: T) -> (r: &mut Self)
        ensures
            pushed_each(*old(self), *r, Operator::RotateZ(angle), qubits@, Seq::empty()),
            *final(self) == *final(r),
    {
        self.push_each(Operator::RotateZ(angle), &qubits, &Vec::new())
    }

    /// Adds a Z-rotation gate with the given angle on each of `target_qubits`, each under all of
    /// `control_qubits`.
    pub fn crz_gates(&mut self, target_qubits: Vec<usize>, control_qubits: Vec<usize>, angle: T) -> (r:
        &mut Self)
        ensures
            pushed_each(*old(self), *r, Operator::RotateZ(angle), target_qubits@, control_qubits@),
            *final(self) == *final(r),
    {
        self.push_each(Operator::RotateZ(angle), &target_qubits, &control_qubits)
    }

    /// Adds a 2x2 unitary gate with the given matrix on `qubit`.
    pub fn unitary_gate(&mut self, qubit: usize, unitary: M) -> (r: &mut Self)
        ensures
            pushed_each(*old(self), *r, Operator::Unitary2(unitary), seq![qubit], Seq::empty()),
            *final(self) == *final(r),
    {
        let qubits = vec![qubit];
        assert(qubits@ =~= seq![qubit]);
        self.push_each(Operator::Unitary2(unitary), &qubits, &Vec::new())
    }

    /// Adds a 2x2 unitary gate with the given matrix on each of `qubits`.
    pub fn unitary_gates(&mut self, qubits: Vec<usize>, unitary: M) -> (r: &mut Self)
        ensures
            pushed_each(*old(self), *r, Operator::Unitary2(unitary), qubits@, Seq::empty()),
            *final(self) == *final(r),
    {
        self.push_each(Operator::Unitary2(unitary), &qubits, &Vec::new())
    }

    /// Adds a 2x2 unitary gate with the given matrix on each of `target_qubits`, each under all of
    /// `control_qubits`.
    pub fn cunitary_gates(&mut self, target_qubits: Vec<usize>, control_qubits: Vec<usize>, unitary: M) -> (r:
        &mut Self)
        ensures
            pushed_each(*old(self), *r, Operator::Unitary2(unitary), target_qubits@, control_qubits@),
            *final(self) == *final(r),
    {
        self.push_each(Operator::Unitary2(unitary), &target_qubits, &control_qubits)
    }

    /// Adds a CNOT gate on `target_qubit` controlled by `control_qubit`.
    pub fn cnot_gate(&mut self, target_qubit: usize, control_qubit: usize) -> (r: &mut Self)
        ensures
            pushed_each(*old(self), *r, Operator::CNOT, seq![target_qubit], seq![control_qubit]),
            *final(self) == *final(r),
    {
        let targets = vec![target_qubit];
        let controls = vec![control_qubit];
        assert(targets@ =~= seq![target_qubit]);
        assert(controls@ =~= seq![control_qubit]);
        self.push_each(Operator::CNOT, &targets, &controls)
    }

    /// Adds a SWAP gate exchanging `qubit1` and `qubit2`.
    pub fn swap_gate(&mut self, qubit1: usize, qubit2: usize) -> (r: &mut Self)
        ensures
            r.num_qubits == old(self).num_qubits,
            r.gates@.len() == old(self).gates@.len() + 1,
            r.gates@.take(old(self).gates@.len() as int) == old(self).gates@,
            is_operator_gate(r.gates@.last(), Operator::SWAP, seq![qubit1, qubit2], Seq::empty()),
            *final(self) == *final(r),
    {
        self.cswap_gate(qubit1, qubit2, Vec::new())
    }

    /// Adds a SWAP gate exchanging `target_qubit1` and `target_qubit2`
    /// under all of `control_qubits`.
    pub fn cswap_gate(&mut self, target_qubit1: usize, target_qubit2: usize, control_qubits: Vec<
        usize,
    >) -> (r: &mut Self)
        ensures
            r.num_qubits == old(self).num_qubits,
            r.gates@.len() == old(self).gates@.len() + 1,
            r.gates@.take(old(self).gates@.len() as int) == old(self).gates@,
            is_operator_gate(
                r.gates@.last(),
                Operator::SWAP,
                seq![target_qubit1, target_qubit2],
                control_qubits@,
            ),
            *final(self) == *final(r),
    {
        let targets = vec![target_qubit1, target_qubit2];
        assert(targets@ =~= seq![target_qubit1, target_qubit2]);
        let ghost before = self.gates@;
        self.gates.push(Gate::Operator(Operator::SWAP, targets, control_qubits));
        assert(self.gates@.take(before.len() as int) =~= before);
        self
    }

    /// Adds a Toffoli gate on `target_qubit` controlled by `control_qubit1`
    /// and `control_qubit2`.
    pub fn toffoli_gate(&mut self, control_qubit1: usize, control_qubit2: usize, target_qubit: usize) -> (r: &mut Self)
        ensures
            pushed_each(
                *old(self),
                *r,
                Operator::Toffoli,
                seq![target_qubit],
                seq![control_qubit1, control_qubit2],
            ),
            *final(self) == *final(r),
    {
        let targets = vec![target_qubit];
        let controls = vec![control_qubit1, control_qubit2];
        assert(targets@ =~= seq![target_qubit]);
        assert(controls@ =~= seq![control_qubit1, control_qubit2]);
        self.push_each(Operator::Toffoli, &targets, &controls)
    }

    /// Adds `operator` on `target_qubits` under `control_qubits`, as one gate.
    pub fn add_operator_gate(
        &mut self,
        operator: Operator<T, M>,
        target_qubits: Vec<usize>,
        control_qubits: Vec<usize>,
    ) -> (r: &mut Self)
        ensures
            r.num_qubits == old(self).num_qubits,
            r.gates@.len() == old(self).gates@.len() + 1,
            r.gates@.take(old(self).gates@.len() as int) == old(self).gates@,
            is_operator_gate(r.gates@.last(), operator, target_qubits@, control_qubits@),
            *final(self) == *final(r),
    {
        let ghost before = self.gates@;
        self.gates.push(Gate::Operator(operator, target_qubits, control_qubits));
        assert(self.gates@.take(before.len() as int) =~= before);
        self
    }

    /// Adds a measurement of `qubits` in `basis`.
    pub fn measure_gate(&mut self, basis: MeasurementBasis<M>, qubits: Vec<usize>) -> (r: &mut Self)
        ensures
            r.num_qubits == old(self).num_qubits,
            r.gates@.len() == old(self).gates@.len() + 1,
            r.gates@.take(old(self).gates@.len() as int) == old(self).gates@,
            r.gates@.last() matches Gate::Measurement(b, qs) && b == basis && qs@ == qubits@,
            *final(self) == *final(r),
    {
        let ghost before = self.gates@;
        let ghost qs = qubits@;
        self.gates.push(Gate::Measurement(basis, qubits));
        assert(self.gates@.take(before.len() as int) =~= before);
        self
    }
}

} // verus!
