//! The closed set of operators and how each one acts on a state.
//!
//! `T` is the type of an angle and `M` the type of a 2x2 matrix. Operators
//! that only move amplitudes (Pauli X, CNOT, Toffoli, SWAP, Identity) are
//! computed here exactly. The others act on each pair of amplitudes through
//! a 2x2 transform that the caller supplies for its amplitude type: the
//! library decides which pairs are transformed and which entries stay.
use vstd::prelude::*;
use crate::errors::Error;
use crate::kernels::{
    copy_vec, flip_kernel, flipped, pair_kernel, pairs_applied, swap_kernel, swapped,
};
use crate::state::State;
use crate::validation::{lemma_validation_accepts, validate_qubits, validation_error};

verus! {

/// The three Pauli operators.
#[derive(Debug, Clone, Copy, PartialEq, Eq, Structural)]
pub enum Pauli {
    X,
    Y,
    Z,
}

impl Pauli {
    /// The letter that names the operator.
    pub fn symbol(&self) -> (r: &'static str)
        ensures
            r@ == match self {
                Pauli::X => seq!['X'],
                Pauli::Y => seq!['Y'],
                Pauli::Z => seq!['Z'],
            },
    {
        proof {
            reveal_strlit("X");
            reveal_strlit("Y");
            reveal_strlit("Z");
        }
        match self {
            Pauli::X => "X",
            Pauli::Y => "Y",
            Pauli::Z => "Z",
        }
    }
}

/// A quantum operator, with its angle (`T`) or matrix (`M`) where it has one.
#[derive(Debug, Clone, Copy)]
pub enum Operator<T, M> {
    /// The Hadamard operator.
    Hadamard,
    /// A Pauli operator.
    Pauli(Pauli),
    /// The identity.
    Identity,
    /// The phase `i` on `|1>`.
    PhaseS,
    /// The phase `-i` on `|1>`.
    PhaseSdag,
    /// The phase `exp(i pi/4)` on `|1>`.
    PhaseT,
    /// The phase `exp(-i pi/4)` on `|1>`.
    PhaseTdag,
    /// The phase `exp(i theta)` on `|1>`.
    PhaseShift(T),
    /// The rotation about X by the angle.
    RotateX(T),
    /// The rotation about Y by the angle.
    RotateY(T),
    /// The rotation about Z by the angle.
    RotateZ(T),
    /// An arbitrary 2x2 unitary.
    Unitary2(M),
    /// Pauli X with exactly one control.
    CNOT,
    /// The exchange of two qubits.
    SWAP,
    /// Pauli X with exactly two distinct controls.
    Toffoli,
}

impl<T: Copy, M: Copy> Operator<T, M> {
    /// The operator only moves amplitudes: it is a bit flip of its target.
    pub open spec fn is_flip(self) -> bool {
        self == Operator::<T, M>::Pauli(Pauli::X) || self is CNOT || self is Toffoli
    }

    /// How many targets the validator asks of the operator.
    pub open spec fn expected_targets(self) -> usize {
        if self is SWAP {
            2
        } else {
            1
        }
    }

    /// What applying the operator to an `n`-qubit state reports, if it fails.
    pub open spec fn apply_error(self, n: usize, targets: Seq<usize>, controls: Seq<usize>) -> Option<
        Error,
    > {
        let v = validation_error(n, targets, controls, self.expected_targets());
        if v is Some {
            v
        } else if self is CNOT && controls.len() != 1 {
            Some(Error::InvalidNumberOfQubits(controls.len() as usize))
        } else if self is Toffoli && controls.len() != 2 {
            Some(Error::InvalidNumberOfQubits(controls.len() as usize))
        } else if self is Toffoli && controls[0] == controls[1] {
            Some(Error::DuplicateControlQubit(controls[0]))
        } else {
            None
        }
    }

    /// `r` is what a successful application makes of amplitudes `a`, with
    /// `act` as the 2x2 transform of the arithmetic operators.
    pub open spec fn applied<A, F: Fn(Operator<T, M>, A, A) -> (A, A)>(
        self,
        a: Seq<A>,
        targets: Seq<usize>,
        controls: Seq<usize>,
        act: F,
        r: Seq<A>,
    ) -> bool {
        if self.is_flip() {
            r == flipped(a, targets[0], controls)
        } else if self is SWAP {
            r == swapped(a, targets[0], targets[1], controls)
        } else if self is Identity {
            r == a
        } else {
            pairs_applied(a, r, targets[0], controls, act, self)
        }
    }

    /// The number of target qubits the operator accepts, the count that
    /// `check` and `apply` validate the targets against: 2 for SWAP, 1 for
    /// every other operator (the controls of CNOT and Toffoli are not targets).
    pub fn base_qubits(&self) -> (r: usize)
        ensures
            r == self.expected_targets(),
    {
        match self {
            Operator::SWAP => 2,
            _ => 1,
        }
    }

    /// Checks the targets and controls of an application on a state of
    /// `num_qubits` qubits, as `apply` does before it computes anything.
    pub fn check(&self, num_qubits: usize, target_qubits: &Vec<usize>, control_qubits: &Vec<usize>) -> (r:
        Result<(), Error>)
        ensures
            r is Err <==> self.apply_error(num_qubits, target_qubits@, control_qubits@) is Some,
            r is Err ==> r->Err_0 == self.apply_error(
                num_qubits,
                target_qubits@,
                control_qubits@,
            )->Some_0,
    {
        validate_qubits(num_qubits, target_qubits, control_qubits, self.base_qubits())?;
        match self {
            Operator::CNOT => {
                if control_qubits.len() != 1 {
                    return Err(Error::InvalidNumberOfQubits(control_qubits.len()));
                }
            },
            Operator::Toffoli => {
                if control_qubits.len() != 2 {
                    return Err(Error::InvalidNumberOfQubits(control_qubits.len()));
                }
                if control_qubits[0] == control_qubits[1] {
                    return Err(Error::DuplicateControlQubit(control_qubits[0]));
                }
            },
            _ => {},
        }
        Ok(())
    }

    /// Applies the operator to `state` on `target_qubits`, under
    /// `control_qubits`, and returns the new state; `act` gives the 2x2
    /// transform of each arithmetic operator on the caller's amplitude type.
    pub fn apply<A: Copy, F: Fn(Operator<T, M>, A, A) -> (A, A)>(
        &self,
        state: &State<A>,
        target_qubits: &Vec<usize>,
        control_qubits: &Vec<usize>,
        act: &F,
    ) -> (r: Result<State<A>, Error>)
        requires
            state.wf(),
            forall|op: Operator<T, M>, a0: A, a1: A| act.requires((op, a0, a1)),
        ensures
            r is Err <==> self.apply_error(state.num_qubits, target_qubits@, control_qubits@) is Some,
            r is Err ==> r->Err_0 == self.apply_error(
                state.num_qubits,
                target_qubits@,
                control_qubits@,
            )->Some_0,
            r is Ok ==> r->Ok_0.wf() && r->Ok_0.num_qubits == state.num_qubits && self.applied(
                state.state_vector@,
                target_qubits@,
                control_qubits@,
                *act,
                r->Ok_0.state_vector@,
            ),
    {
        let n = state.num_qubits;
        self.check(n, target_qubits, control_qubits)?;
        proof {
            lemma_validation_accepts(n, target_qubits@, control_qubits@, self.expected_targets());
        }
        let op = *self;
        let t = target_qubits[0];
        assert(!control_qubits@.contains(t)) by {
            if control_qubits@.contains(t) {
                let k = choose|k: int| 0 <= k < control_qubits@.len() && control_qubits@[k] == t;
                assert(target_qubits@.contains(control_qubits@[k]));
            }
        }
        let new_vec = match op {
            Operator::Pauli(Pauli::X) | Operator::CNOT | Operator::Toffoli => {
                flip_kernel(&state.state_vector, n, t, control_qubits)
            },
            Operator::SWAP => swap_kernel(
                &state.state_vector,
                n,
                t,
                target_qubits[1],
                control_qubits,
            ),
            Operator::Identity => copy_vec(&state.state_vector),
            _ => pair_kernel(&state.state_vector, n, t, control_qubits, act, op),
        };
        Ok(State { state_vector: new_vec, num_qubits: n })
    }
}

} // verus!
