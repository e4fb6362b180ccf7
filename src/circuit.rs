//! A circuit: an ordered sequence of gates over a fixed number of qubits,
//! and the execution that threads a state through it.
use vstd::prelude::*;
use crate::errors::Error;
use crate::gate::{gate_in_range, gate_step, measure_keeps_shape, Gate};
use crate::measurement::MeasurementBasis;
use crate::operator::Operator;
use crate::state::State;
use crate::validation::{first_out_of_range, lemma_first_out_of_range};

verus! {

/// A sequence of gates over `num_qubits` qubits.
#[derive(Debug)]
pub struct Circuit<T, M> {
    /// The gates, in the order they apply.
    pub gates: Vec<Gate<T, M>>,
    /// The number of qubits.
    pub num_qubits: usize,
}

/// Every gate of `gates` names qubits below `n` only.
pub open spec fn all_gates_in_range<T: Copy, M: Copy>(gates: Seq<Gate<T, M>>, n: usize) -> bool {
    forall|k: int| 0 <= k < gates.len() ==> gate_in_range(#[trigger] gates[k], n)
}

/// The error of the first gate, in order, that names a qubit out of range.
pub open spec fn first_gate_range_error<T: Copy, M: Copy>(gates: Seq<Gate<T, M>>, n: usize) -> Option<
    Error,
>
    decreases gates.len(),
{
    if gates.len() == 0 {
        None
    } else if gates[0].range_error(n) is Some {
        gates[0].range_error(n)
    } else {
        first_gate_range_error(gates.drop_first(), n)
    }
}

/// Two states hold the same amplitudes over the same qubits.
pub open spec fn same_state<A>(s: State<A>, t: State<A>) -> bool {
    s.num_qubits == t.num_qubits && s.state_vector@ == t.state_vector@
}

/// `trace` is a run of `gates`: each state is what its gate made of the one before.
pub open spec fn is_run<T: Copy, M: Copy, A: Copy, F, G>(
    gates: Seq<Gate<T, M>>,
    trace: Seq<State<A>>,
    act: F,
    measure: G,
) -> bool where
    F: Fn(Operator<T, M>, A, A) -> (A, A),
    G: Fn(MeasurementBasis<M>, &Vec<usize>, &State<A>) -> Result<State<A>, Error>,
 {
    &&& trace.len() == gates.len() + 1
    &&& forall|k: int|
        #![trigger trace[k + 1]]
        0 <= k < gates.len() ==> gate_step(gates[k], trace[k], act, measure, Ok(trace[k + 1]))
}

/// No operator gate of `gates` can fail on an `n`-qubit state.
pub open spec fn operators_accept<T: Copy, M: Copy>(gates: Seq<Gate<T, M>>, n: usize) -> bool {
    forall|k: int|
        #![trigger gates[k]]
        0 <= k < gates.len() ==> match gates[k] {
            Gate::Operator(op, ts, cs) => op.apply_error(n, ts@, cs@) is None,
            Gate::Measurement(..) => true,
        }
}

/// The measurement routine never reports a failure.
pub open spec fn measure_never_fails<M, A: Copy, G>(measure: G) -> bool where
    G: Fn(MeasurementBasis<M>, &Vec<usize>, &State<A>) -> Result<State<A>, Error>,
 {
    forall|b: MeasurementBasis<M>, qs: Vec<usize>, s: State<A>, r: Result<State<A>, Error>|
        #[trigger] measure.ensures((b, &qs, &s), r) ==> r is Ok
}

/// No gate reports a range error exactly when every gate is in range.
pub proof fn lemma_first_gate_range_error<T: Copy, M: Copy>(gates: Seq<Gate<T, M>>, n: usize)
    ensures
        first_gate_range_error(gates, n) is None <==> all_gates_in_range(gates, n),
    decreases gates.len(),
{
    if gates.len() > 0 {
        let rest = gates.drop_first();
        lemma_first_gate_range_error(rest, n);
        lemma_first_out_of_range(gates[0].targets(), n);
        lemma_first_out_of_range(gates[0].controls(), n);
        assert forall|k: int| 0 <= k < rest.len() implies #[trigger] rest[k] == gates[k + 1] by {}
        if all_gates_in_range(gates, n) {
            assert(gate_in_range(gates[0], n));
            assert forall|k: int| 0 <= k < rest.len() implies gate_in_range(#[trigger] rest[k], n) by {
                assert(gate_in_range(gates[k + 1], n));
            }
        }
        if first_gate_range_error(gates, n) is None {
            assert forall|k: int| 0 <= k < gates.len() implies gate_in_range(#[trigger] gates[k], n) by {
                if k > 0 {
                    assert(gates[k] == rest[k - 1]);
                }
            }
        }
    }
}

/// Checks that every qubit that `gate` names lies below `circuit_num_qubits`.
fn validate_gate_qubits<T: Copy, M: Copy>(gate: &Gate<T, M>, circuit_num_qubits: usize) -> (r: Result<
    (),
    Error,
>)
    ensures
        r is Err <==> gate.range_error(circuit_num_qubits) is Some,
        r is Err ==> r->Err_0 == gate.range_error(circuit_num_qubits)->Some_0,
{
    let targets = gate.get_target_qubits();
    let ghost ts = targets@;
    assert(ts.subrange(0, ts.len() as int) =~= ts);
    let mut k: usize = 0;
    while k < targets.len()
        invariant
            k <= targets@.len(),
            ts == targets@,
            ts == gate.targets(),
            first_out_of_range(ts, circuit_num_qubits) == first_out_of_range(
                ts.subrange(k as int, ts.len() as int),
                circuit_num_qubits,
            ),
        decreases targets@.len() - k,
    {
        let ghost rest = ts.subrange(k as int, ts.len() as int);
        assert(rest.drop_first() =~= ts.subrange(k + 1, ts.len() as int));
        assert(rest[0] == ts[k as int]);
        if targets[k] >= circuit_num_qubits {
            return Err(Error::InvalidQubitIndex(targets[k], circuit_num_qubits));
        }
        k += 1;
    }
    assert(ts.subrange(k as int, ts.len() as int) =~= Seq::<usize>::empty());
    if let Some(controls) = gate.get_control_qubits() {
        let ghost cs = controls@;
        assert(cs.subrange(0, cs.len() as int) =~= cs);
        let mut c: usize = 0;
        while c < controls.len()
            invariant
                c <= controls@.len(),
                cs == controls@,
                cs == gate.controls(),
                ts == gate.targets(),
                first_out_of_range(ts, circuit_num_qubits) is None,
                first_out_of_range(cs, circuit_num_qubits) == first_out_of_range(
                    cs.subrange(c as int, cs.len() as int),
                    circuit_num_qubits,
                ),
            decreases controls@.len() - c,
        {
            let ghost rest = cs.subrange(c as int, cs.len() as int);
            assert(rest.drop_first() =~= cs.subrange(c + 1, cs.len() as int));
            assert(rest[0] == cs[c as int]);
            if controls[c] >= circuit_num_qubits {
                return Err(Error::InvalidQubitIndex(controls[c], circuit_num_qubits));
            }
            c += 1;
        }
        assert(cs.subrange(c as int, cs.len() as int) =~= Seq::<usize>::empty());
    }
    Ok(())
}

/// Checks every gate of `gates`, in order, against `num_qubits`.
pub(crate) fn validate_all_gates<T: Copy, M: Copy>(gates: &Vec<Gate<T, M>>, num_qubits: usize) -> (r: Result<
    (),
    Error,
>)
    ensures
        r is Err <==> first_gate_range_error(gates@, num_qubits) is Some,
        r is Err ==> r->Err_0 == first_gate_range_error(gates@, num_qubits)->Some_0,
{
    let ghost gs = gates@;
    assert(gs.subrange(0, gs.len() as int) =~= gs);
    let mut k: usize = 0;
    while k < gates.len()
        invariant
            k <= gs.len(),
            gs == gates@,
            first_gate_range_error(gs, num_qubits) == first_gate_range_error(
                gs.subrange(k as int, gs.len() as int),
                num_qubits,
            ),
        decreases gs.len() - k,
    {
        let ghost rest = gs.subrange(k as int, gs.len() as int);
        assert(rest.drop_first() =~= gs.subrange(k + 1, gs.len() as int));
        assert(rest[0] == gs[k as int]);
        validate_gate_qubits(&gates[k], num_qubits)?;
        k += 1;
    }
    assert(gs.subrange(k as int, gs.len() as int) =~= Seq::<Gate<T, M>>::empty());
    Ok(())
}

impl<T: Copy, M: Copy> Circuit<T, M> {
    /// Every gate names qubits of this circuit only.
    pub open spec fn wf(&self) -> bool {
        all_gates_in_range(self.gates@, self.num_qubits)
    }

    /// An empty circuit over `num_qubits` qubits.
    pub fn new(num_qubits: usize) -> (r: Self)
        ensures
            r.wf(),
            r.num_qubits == num_qubits,
            r.gates@ == Seq::<Gate<T, M>>::empty(),
    {
        Circuit { gates: Vec::new(), num_qubits }
    }

    /// A circuit of `gates` over `num_qubits` qubits, if every gate names
    /// qubits in range; otherwise the error of the first gate that does not.
    pub fn with_gates(gates: Vec<Gate<T, M>>, num_qubits: usize) -> (r: Result<Self, Error>)
        ensures
            r is Ok <==> all_gates_in_range(gates@, num_qubits),
            r is Ok ==> r->Ok_0.wf() && r->Ok_0.gates@ == gates@ && r->Ok_0.num_qubits
                == num_qubits,
            r is Err ==> r->Err_0 == first_gate_range_error(gates@, num_qubits)->Some_0,
    {
        proof {
            lemma_first_gate_range_error(gates@, num_qubits);
        }
        validate_all_gates(&gates, num_qubits)?;
        Ok(Circuit { gates, num_qubits })
    }

    /// Appends `gate` if it names qubits in range; otherwise reports the
    /// first that is not and leaves the circuit as it was.
    pub fn add_gate(&mut self, gate: Gate<T, M>) -> (r: Result<(), Error>)
        ensures
            r is Ok <==> gate_in_range(gate, old(self).num_qubits),
            r is Ok ==> final(self).gates@ == old(self).gates@.push(gate),
            r is Err ==> r->Err_0 == gate.range_error(old(self).num_qubits)->Some_0,
            r is Err ==> final(self).gates@ == old(self).gates@,
            final(self).num_qubits == old(self).num_qubits,
            old(self).wf() ==> final(self).wf(),
    {
        proof {
            lemma_first_out_of_range(gate.targets(), self.num_qubits);
            lemma_first_out_of_range(gate.controls(), self.num_qubits);
        }
        validate_gate_qubits(&gate, self.num_qubits)?;
        self.gates.push(gate);
        Ok(())
    }

    /// Appends all of `gates` if every one names qubits in range; otherwise
    /// reports the first failure and leaves the circuit as it was.
    pub fn add_gates(&mut self, gates: Vec<Gate<T, M>>) -> (r: Result<(), Error>)
        ensures
            r is Ok <==> all_gates_in_range(gates@, old(self).num_qubits),
            r is Ok ==> final(self).gates@ == old(self).gates@ + gates@,
            r is Err ==> r->Err_0 == first_gate_range_error(gates@, old(self).num_qubits)->Some_0,
            r is Err ==> final(self).gates@ == old(self).gates@,
            final(self).num_qubits == old(self).num_qubits,
            old(self).wf() ==> final(self).wf(),
    {
        proof {
            lemma_first_gate_range_error(gates@, self.num_qubits);
        }
        validate_all_gates(&gates, self.num_qubits)?;
        let mut gates = gates;
        self.gates.append(&mut gates);
        Ok(())
    }

    /// The number of qubits.
    pub fn get_num_qubits(&self) -> (r: usize)
        ensures
            r == self.num_qubits,
    {
        self.num_qubits
    }

    /// The gates, in order.
    pub fn get_gates(&self) -> (r: &Vec<Gate<T, M>>)
        ensures
            r@ == self.gates@,
    {
        &self.gates
    }

    /// Runs the circuit on `initial_state` and returns the final state.
    /// Operator gates apply through `act`, measurement gates through
    /// `measure`; the first failure stops the run and is returned.
    pub fn execute<A: Copy, F, G>(&self, initial_state: &State<A>, act: &F, measure: &G) -> (r:
        Result<State<A>, Error>) where
        F: Fn(Operator<T, M>, A, A) -> (A, A),
        G: Fn(MeasurementBasis<M>, &Vec<usize>, &State<A>) -> Result<State<A>, Error>,

        requires
            initial_state.wf(),
            forall|op: Operator<T, M>, a0: A, a1: A| act.requires((op, a0, a1)),
            forall|b: MeasurementBasis<M>, qs: &Vec<usize>, s: &State<A>|
                measure.requires((b, qs, s)),
            measure_keeps_shape(*measure),
        ensures
            initial_state.num_qubits != self.num_qubits ==> r == Err::<State<A>, Error>(
                Error::InvalidNumberOfQubits(initial_state.num_qubits),
            ),
            initial_state.num_qubits == self.num_qubits && r is Ok ==> exists|trace: Seq<State<A>>|
                is_run(self.gates@, trace, *act, *measure) && same_state(trace[0], *initial_state)
                    && #[trigger] trace.last() == r->Ok_0,
            initial_state.num_qubits == self.num_qubits && r is Err ==> exists|
                trace: Seq<State<A>>,
                k: int,
            |
                0 <= k < self.gates@.len() && is_run(self.gates@.take(k), trace, *act, *measure)
                    && same_state(trace[0], *initial_state) && #[trigger] gate_step(
                    self.gates@[k],
                    trace[k],
                    *act,
                    *measure,
                    r,
                ),
            initial_state.num_qubits == self.num_qubits && operators_accept(
                self.gates@,
                self.num_qubits,
            ) && measure_never_fails(*measure) ==> r is Ok,
    {
        if initial_state.num_qubits() != self.num_qubits {
            return Err(Error::InvalidNumberOfQubits(initial_state.num_qubits()));
        }
        let mut current_state = initial_state.copy();
        let ghost mut trace: Seq<State<A>> = seq![current_state];
        let mut k: usize = 0;
        while k < self.gates.len()
            invariant
                k <= self.gates@.len(),
                forall|op: Operator<T, M>, a0: A, a1: A| act.requires((op, a0, a1)),
                forall|b: MeasurementBasis<M>, qs: &Vec<usize>, s: &State<A>|
                    measure.requires((b, qs, s)),
                measure_keeps_shape(*measure),
                current_state.wf(),
                current_state.num_qubits == self.num_qubits,
                initial_state.num_qubits == self.num_qubits,
                is_run(self.gates@.take(k as int), trace, *act, *measure),
                same_state(trace[0], *initial_state),
                trace.last() == current_state,
            decreases self.gates@.len() - k,
        {
            let ghost prev = trace;
            let step = self.gates[k].apply(&current_state, act, measure);
            match step {
                Ok(next) => {
                    proof {
                        trace = trace.push(next);
                        assert(self.gates@.take(k + 1).take(k as int) =~= self.gates@.take(
                            k as int,
                        ));
                        assert forall|m: int|
                            #![trigger trace[m + 1]]
                            0 <= m < k + 1 implies gate_step(
                            self.gates@.take(k + 1)[m],
                            trace[m],
                            *act,
                            *measure,
                            Ok(trace[m + 1]),
                        ) by {
                            if m < k {
                                assert(prev[m + 1] == trace[m + 1]);
                                assert(self.gates@.take(k as int)[m] == self.gates@.take(k + 1)[m]);
                            }
                        }
                        match self.gates@[k as int] {
                            Gate::Operator(..) => {},
                            Gate::Measurement(b, qs) => {
                                assert(measure.ensures((b, &qs, &current_state), Ok(next)));
                            },
                        }
                    }
                    current_state = next;
                },
                Err(e) => {
                    proof {
                        assert(gate_step(self.gates@[k as int], trace[k as int], *act, *measure, Err(e)));
                        if operators_accept(self.gates@, self.num_qubits) && measure_never_fails(*measure) {
                            match self.gates@[k as int] {
                                Gate::Operator(..) => {},
                                Gate::Measurement(b, qs) => {
                                    assert(measure.ensures((b, &qs, &current_state), Err::<State<A>, Error>(e)));
                                },
                            }
                        }
                    }
                    return Err(e);
                },
            }
            k += 1;
        }
        assert(self.gates@.take(k as int) =~= self.gates@);
        Ok(current_state)
    }

    /// Runs the circuit on `initial_state` and returns the initial state
    /// followed by the state after each gate; fails as `execute` does.
    pub fn trace_execution<A: Copy, F, G>(&self, initial_state: &State<A>, act: &F, measure: &G) -> (r:
        Result<Vec<State<A>>, Error>) where
        F: Fn(Operator<T, M>, A, A) -> (A, A),
        G: Fn(MeasurementBasis<M>, &Vec<usize>, &State<A>) -> Result<State<A>, Error>,

        requires
            initial_state.wf(),
            forall|op: Operator<T, M>, a0: A, a1: A| act.requires((op, a0, a1)),
            forall|b: MeasurementBasis<M>, qs: &Vec<usize>, s: &State<A>|
                measure.requires((b, qs, s)),
            measure_keeps_shape(*measure),
        ensures
            initial_state.num_qubits != self.num_qubits ==> r == Err::<Vec<State<A>>, Error>(
                Error::InvalidNumberOfQubits(initial_state.num_qubits),
            ),
            r is Ok ==> is_run(self.gates@, r->Ok_0@, *act, *measure) && same_state(
                r->Ok_0@[0],
                *initial_state,
            ),
            initial_state.num_qubits == self.num_qubits && r is Err ==> exists|
                trace: Seq<State<A>>,
                k: int,
            |
                0 <= k < self.gates@.len() && is_run(self.gates@.take(k), trace, *act, *measure)
                    && same_state(trace[0], *initial_state) && #[trigger] gate_step(
                    self.gates@[k],
                    trace[k],
                    *act,
                    *measure,
                    Err::<State<A>, Error>(r->Err_0),
                ),
            initial_state.num_qubits == self.num_qubits && operators_accept(
                self.gates@,
                self.num_qubits,
            ) && measure_never_fails(*measure) ==> r is Ok,
    {
        if initial_state.num_qubits() != self.num_qubits {
            return Err(Error::InvalidNumberOfQubits(initial_state.num_qubits()));
        }
        let mut states: Vec<State<A>> = Vec::new();
        states.push(initial_state.copy());
        let mut k: usize = 0;
        while k < self.gates.len()
            invariant
                k <= self.gates@.len(),
                forall|op: Operator<T, M>, a0: A, a1: A| act.requires((op, a0, a1)),
                forall|b: MeasurementBasis<M>, qs: &Vec<usize>, s: &State<A>|
                    measure.requires((b, qs, s)),
                measure_keeps_shape(*measure),
                states@.len() == k + 1,
                states@.last().wf(),
                states@.last().num_qubits == self.num_qubits,
                initial_state.num_qubits == self.num_qubits,
                is_run(self.gates@.take(k as int), states@, *act, *measure),
                same_state(states@[0], *initial_state),
            decreases self.gates@.len() - k,
        {
            let ghost prev = states@;
            let step = self.gates[k].apply(&states[k], act, measure);
            match step {
                Ok(next) => {
                    proof {
                        match self.gates@[k as int] {
                            Gate::Operator(..) => {},
                            Gate::Measurement(b, qs) => {
                                assert(measure.ensures((b, &qs, &prev[k as int]), Ok(next)));
                            },
                        }
                    }
                    states.push(next);
                    proof {
                        assert(self.gates@.take(k + 1).take(k as int) =~= self.gates@.take(
                            k as int,
                        ));
                        assert forall|m: int|
                            #![trigger states@[m + 1]]
                            0 <= m < k + 1 implies gate_step(
                            self.gates@.take(k + 1)[m],
                            states@[m],
                            *act,
                            *measure,
                            Ok(states@[m + 1]),
                        ) by {
                            if m < k {
                                assert(prev[m + 1] == states@[m + 1]);
                                assert(self.gates@.take(k as int)[m] == self.gates@.take(k + 1)[m]);
                            }
                        }
                    }
                },
                Err(e) => {
                    proof {
                        assert(gate_step(
                            self.gates@[k as int],
                            prev[k as int],
                            *act,
                            *measure,
                            Err::<State<A>, Error>(e),
                        ));
                        let ghost failed: Result<Vec<State<A>>, Error> = Err(e);
                        assert(is_run(self.gates@.take(k as int), prev, *act, *measure));
                        assert(exists|trace: Seq<State<A>>, j: int|
                            0 <= j < self.gates@.len() && is_run(self.gates@.take(j), trace, *act, *measure)
                                && same_state(trace[0], *initial_state) && #[trigger] gate_step(
                                self.gates@[j],
                                trace[j],
                                *act,
                                *measure,
                                Err::<State<A>, Error>(failed->Err_0),
                            )) by {
                            assert(gate_step(
                                self.gates@[k as int],
                                prev[k as int],
                                *act,
                                *measure,
                                Err::<State<A>, Error>(failed->Err_0),
                            ));
                        }
                        if operators_accept(self.gates@, self.num_qubits) && measure_never_fails(*measure) {
                            match self.gates@[k as int] {
                                Gate::Operator(..) => {},
                                Gate::Measurement(b, qs) => {
                                    assert(measure.ensures((b, &qs, &prev[k as int]), Err::<State<A>, Error>(e)));
                                },
                            }
                        }
                    }
                    return Err(e);
                },
            }
            k += 1;
        }
        assert(self.gates@.take(k as int) =~= self.gates@);
        Ok(states)
    }
}

} // verus!
