//! A gate: an operator with its target and control qubits, or a measurement
//! of some qubits.
use vstd::prelude::*;
use crate::bits::all_below;
use crate::errors::Error;
use crate::kernels::copy_vec;
use crate::measurement::MeasurementBasis;
use crate::operator::Operator;
use crate::state::State;
use crate::validation::first_out_of_range;

verus! {

/// One step of a circuit.
#[derive(Debug, Clone)]
pub enum Gate<T, M> {
    /// An operator applied to the targets under the controls.
    Operator(Operator<T, M>, Vec<usize>, Vec<usize>),
    /// A measurement of the listed qubits in a basis.
    Measurement(MeasurementBasis<M>, Vec<usize>),
}

/// `g` is the operator `op` on `targets` under `controls`.
pub open spec fn is_operator_gate<T, M>(
    g: Gate<T, M>,
    op: Operator<T, M>,
    targets: Seq<usize>,
    controls: Seq<usize>,
) -> bool {
    match g {
        Gate::Operator(o, t, c) => o == op && t@ == targets && c@ == controls,
        Gate::Measurement(..) => false,
    }
}

/// What one gate does to state `s` when it yields `r`: an operator gate as
/// `Operator::apply` states it, a measurement gate as `measure` states it.
pub open spec fn gate_step<T: Copy, M: Copy, A: Copy, F, G>(
    g: Gate<T, M>,
    s: State<A>,
    act: F,
    measure: G,
    r: Result<State<A>, Error>,
) -> bool where
    F: Fn(Operator<T, M>, A, A) -> (A, A),
    G: Fn(MeasurementBasis<M>, &Vec<usize>, &State<A>) -> Result<State<A>, Error>,
 {
    match g {
        Gate::Operator(op, ts, cs) => {
            &&& (r is Err <==> op.apply_error(s.num_qubits, ts@, cs@) is Some)
            &&& (r is Err ==> r->Err_0 == op.apply_error(s.num_qubits, ts@, cs@)->Some_0)
            &&& (r is Ok ==> r->Ok_0.wf() && r->Ok_0.num_qubits == s.num_qubits && op.applied(
                s.state_vector@,
                ts@,
                cs@,
                act,
                r->Ok_0.state_vector@,
            ))
        },
        Gate::Measurement(b, qs) => measure.ensures((b, &qs, &s), r),
    }
}

/// A measurement routine keeps states well formed and of the same size.
pub open spec fn measure_keeps_shape<M, A: Copy, G>(measure: G) -> bool where
    G: Fn(MeasurementBasis<M>, &Vec<usize>, &State<A>) -> Result<State<A>, Error>,
 {
    forall|b: MeasurementBasis<M>, qs: Vec<usize>, s: State<A>, r: Result<State<A>, Error>|
        #[trigger] measure.ensures((b, &qs, &s), r) && r is Ok ==> r->Ok_0.wf()
            && r->Ok_0.num_qubits == s.num_qubits
}

impl<T: Copy, M: Copy> Gate<T, M> {
    /// The target qubits, or the measured ones.
    pub open spec fn targets(&self) -> Seq<usize> {
        match self {
            Gate::Operator(_, t, _) => t@,
            Gate::Measurement(_, q) => q@,
        }
    }

    /// The control qubits (none for a measurement).
    pub open spec fn controls(&self) -> Seq<usize> {
        match self {
            Gate::Operator(_, _, c) => c@,
            Gate::Measurement(..) => Seq::empty(),
        }
    }

    /// Both gates are the same step.
    pub open spec fn same_as(&self, other: Gate<T, M>) -> bool {
        match (*self, other) {
            (Gate::Operator(o1, t1, c1), Gate::Operator(o2, t2, c2)) => o1 == o2 && t1@ == t2@
                && c1@ == c2@,
            (Gate::Measurement(b1, q1), Gate::Measurement(b2, q2)) => b1 == b2 && q1@ == q2@,
            _ => false,
        }
    }

    /// What a circuit of `n` qubits reports for this gate: the first target,
    /// then the first control, that is out of range.
    pub open spec fn range_error(&self, n: usize) -> Option<Error> {
        if first_out_of_range(self.targets(), n) is Some {
            Some(Error::InvalidQubitIndex(first_out_of_range(self.targets(), n)->Some_0, n))
        } else if first_out_of_range(self.controls(), n) is Some {
            Some(Error::InvalidQubitIndex(first_out_of_range(self.controls(), n)->Some_0, n))
        } else {
            None
        }
    }

    /// `op` on the single qubit `qubit`, without controls.
    pub fn single_qubit_gate(op: Operator<T, M>, qubit: usize) -> (r: Self)
        ensures
            is_operator_gate(r, op, seq![qubit], Seq::empty()),
    {
        let t = vec![qubit];
        let c: Vec<usize> = Vec::new();
        assert(t@ =~= seq![qubit]);
        assert(c@ =~= Seq::<usize>::empty());
        Gate::Operator(op, t, c)
    }

    /// One gate of `op` per qubit of `qubits`, without controls.
    pub fn multi_qubit_gates(op: Operator<T, M>, qubits: &Vec<usize>) -> (r: Vec<Self>)
        ensures
            r@.len() == qubits@.len(),
            forall|k: int|
                0 <= k < qubits@.len() ==> is_operator_gate(
                    #[trigger] r@[k],
                    op,
                    seq![qubits@[k]],
                    Seq::empty(),
                ),
    {
        let mut out: Vec<Self> = Vec::new();
        let mut k: usize = 0;
        while k < qubits.len()
            invariant
                k <= qubits@.len(),
                out@.len() == k,
                forall|m: int|
                    0 <= m < k ==> is_operator_gate(
                        #[trigger] out@[m],
                        op,
                        seq![qubits@[m]],
                        Seq::empty(),
                    ),
            decreases qubits@.len() - k,
        {
            out.push(Self::single_qubit_gate(op, qubits[k]));
            k += 1;
        }
        out
    }

    /// One gate of `op` per qubit of `targets`, each under all of `controls`.
    pub fn controlled_gates(op: Operator<T, M>, targets: &Vec<usize>, controls: &Vec<usize>) -> (r:
        Vec<Self>)
        ensures
            r@.len() == targets@.len(),
            forall|k: int|
                0 <= k < targets@.len() ==> is_operator_gate(
                    #[trigger] r@[k],
                    op,
                    seq![targets@[k]],
                    controls@,
                ),
    {
        let mut out: Vec<Self> = Vec::new();
        let mut k: usize = 0;
        while k < targets.len()
            invariant
                k <= targets@.len(),
                out@.len() == k,
                forall|m: int|
                    0 <= m < k ==> is_operator_gate(
                        #[trigger] out@[m],
                        op,
                        seq![targets@[m]],
                        controls@,
                    ),
            decreases targets@.len() - k,
        {
            let t = vec![targets[k]];
            assert(t@ =~= seq![targets@[k as int]]);
            out.push(Gate::Operator(op, t, copy_vec(controls)));
            k += 1;
        }
        out
    }

    /// The target qubits, or the measured ones.
    pub fn get_target_qubits(&self) -> (r: &Vec<usize>)
        ensures
            r@ == self.targets(),
    {
        match self {
            Gate::Operator(_, t, _) => t,
            Gate::Measurement(_, q) => q,
        }
    }

    /// The control qubits; `None` for a measurement.
    pub fn get_control_qubits(&self) -> (r: Option<&Vec<usize>>)
        ensures
            self is Measurement <==> r is None,
            r is Some ==> r->Some_0@ == self.controls(),
    {
        match self {
            Gate::Operator(_, _, c) => Some(c),
            Gate::Measurement(..) => None,
        }
    }

    /// An independent copy of this gate.
    pub fn duplicate(&self) -> (r: Self)
        ensures
            self.same_as(r),
    {
        match self {
            Gate::Operator(op, t, c) => Gate::Operator(*op, copy_vec(t), copy_vec(c)),
            Gate::Measurement(b, q) => Gate::Measurement(*b, copy_vec(q)),
        }
    }

    /// Applies this step to `state`: an operator through `Operator::apply`
    /// with `act`, a measurement through `measure`.
    pub fn apply<A: Copy, F, G>(&self, state: &State<A>, act: &F, measure: &G) -> (r: Result<
        State<A>,
        Error,
    >) where
        F: Fn(Operator<T, M>, A, A) -> (A, A),
        G: Fn(MeasurementBasis<M>, &Vec<usize>, &State<A>) -> Result<State<A>, Error>,

        requires
            state.wf(),
            forall|op: Operator<T, M>, a0: A, a1: A| act.requires((op, a0, a1)),
            forall|b: MeasurementBasis<M>, qs: &Vec<usize>, s: &State<A>|
                measure.requires((b, qs, s)),
        ensures
            gate_step(*self, *state, *act, *measure, r),
    {
        match self {
            Gate::Operator(op, t, c) => op.apply(state, t, c, act),
            Gate::Measurement(b, q) => measure(*b, q, state),
        }
    }
}

/// Every qubit that `g` names lies below `n`.
pub open spec fn gate_in_range<T: Copy, M: Copy>(g: Gate<T, M>, n: usize) -> bool {
    all_below(g.targets(), n) && all_below(g.controls(), n)
}

} // verus!
