//! Measurement bases and the record of a measurement.
use vstd::prelude::*;
use crate::bits::all_below;
use crate::errors::Error;
use crate::operator::Operator;
use crate::state::{collapsed, State};
use crate::validation::{
    first_bad_control, lemma_first_out_of_range, lemma_validation_accepts, validate_qubits,
    validation_error,
};

verus! {

/// The basis a measurement is taken in; `M` is the type of a 2x2 matrix.
#[derive(Debug, Clone, Copy)]
pub enum MeasurementBasis<M> {
    /// The computational (Z) basis `|0>`, `|1>`.
    Computational,
    /// The X basis `|+>`, `|->`.
    X,
    /// The Y basis `|i+>`, `|i->`.
    Y,
    /// The basis given by the rows of a 2x2 unitary.
    Custom(M),
}

/// The operators, in order, that take a fixed basis to the computational one
/// before the collapse; a custom basis needs the adjoint of its matrix, which
/// only the matrix type can form.
pub open spec fn rotation_into_spec<T, M>(basis: MeasurementBasis<M>) -> Seq<Operator<T, M>> {
    match basis {
        MeasurementBasis::X => seq![Operator::Hadamard],
        MeasurementBasis::Y => seq![Operator::PhaseSdag, Operator::Hadamard],
        _ => seq![],
    }
}

/// The operators, in order, that take the computational basis back to a
/// fixed basis after the collapse.
pub open spec fn rotation_back_spec<T, M>(basis: MeasurementBasis<M>) -> Seq<Operator<T, M>> {
    match basis {
        MeasurementBasis::X => seq![Operator::Hadamard],
        MeasurementBasis::Y => seq![Operator::Hadamard, Operator::PhaseS],
        MeasurementBasis::Custom(m) => seq![Operator::Unitary2(m)],
        MeasurementBasis::Computational => seq![],
    }
}

impl<M: Copy> MeasurementBasis<M> {
    /// The operators that rotate this basis into the computational one
    /// (empty for the computational and custom bases).
    pub fn rotation_into<T: Copy>(&self) -> (r: Vec<Operator<T, M>>)
        ensures
            r@ == rotation_into_spec::<T, M>(*self),
    {
        match self {
            MeasurementBasis::X => vec![Operator::Hadamard],
            MeasurementBasis::Y => vec![Operator::PhaseSdag, Operator::Hadamard],
            _ => Vec::new(),
        }
    }

    /// The operators that rotate the computational basis back into this one.
    pub fn rotation_back<T: Copy>(&self) -> (r: Vec<Operator<T, M>>)
        ensures
            r@ == rotation_back_spec::<T, M>(*self),
    {
        match self {
            MeasurementBasis::X => vec![Operator::Hadamard],
            MeasurementBasis::Y => vec![Operator::Hadamard, Operator::PhaseS],
            MeasurementBasis::Custom(m) => vec![Operator::Unitary2(*m)],
            MeasurementBasis::Computational => Vec::new(),
        }
    }
}

/// The outcome of measuring some qubits of a state.
pub struct MeasurementResult<A, M> {
    /// The basis of measurement.
    pub basis: MeasurementBasis<M>,
    /// The measured qubits, in the order they were measured.
    pub indices: Vec<usize>,
    /// One bit (0 or 1) per measured qubit, in the order of `indices`.
    pub outcomes: Vec<u8>,
    /// The state after the measurement.
    pub new_state: State<A>,
}

impl<A, M> MeasurementResult<A, M> {
    /// The measured qubits.
    pub fn get_indices(&self) -> (r: &Vec<usize>)
        ensures
            r == &self.indices,
    {
        &self.indices
    }

    /// The basis of measurement.
    pub fn get_basis(&self) -> (r: &MeasurementBasis<M>)
        ensures
            r == &self.basis,
    {
        &self.basis
    }

    /// The outcome bits, one per measured qubit.
    pub fn get_outcomes(&self) -> (r: &Vec<u8>)
        ensures
            r == &self.outcomes,
    {
        &self.outcomes
    }

    /// The state after the measurement.
    pub fn get_new_state(&self) -> (r: &State<A>)
        ensures
            r == &self.new_state,
    {
        &self.new_state
    }
}

/// `chain` runs from `start` through one application of `op` to each qubit
/// of `qubits` in turn, without controls.
pub open spec fn rotation_run<T: Copy, M: Copy, A: Copy, F: Fn(Operator<T, M>, A, A) -> (A, A)>(
    start: State<A>,
    op: Operator<T, M>,
    qubits: Seq<usize>,
    act: F,
    chain: Seq<State<A>>,
) -> bool {
    &&& chain.len() == qubits.len() + 1
    &&& chain[0].num_qubits == start.num_qubits
    &&& chain[0].state_vector@ == start.state_vector@
    &&& forall|k: int|
        #![trigger chain[k + 1]]
        0 <= k < qubits.len() ==> chain[k + 1].wf() && chain[k + 1].num_qubits == start.num_qubits
            && op.applied(chain[k].state_vector@, seq![qubits[k]], Seq::empty(), act, chain[k + 1].state_vector@)
}

/// `chain` runs from `start` through the collapse of each qubit of `qubits`
/// in turn: `draw` gave each outcome with its renormalisation factor.
pub open spec fn collapse_run<A: Copy, S, D, G>(
    start: State<A>,
    qubits: Seq<usize>,
    draw: D,
    scale: G,
    zero: A,
    chain: Seq<State<A>>,
    outcomes: Seq<bool>,
    factors: Seq<S>,
) -> bool where
    D: Fn(&State<A>, usize) -> Result<(bool, S), Error>,
    G: Fn(S, A) -> A,
 {
    &&& chain.len() == qubits.len() + 1
    &&& outcomes.len() == qubits.len()
    &&& factors.len() == qubits.len()
    &&& chain[0].num_qubits == start.num_qubits
    &&& chain[0].state_vector@ == start.state_vector@
    &&& forall|j: int|
        #![trigger chain[j + 1]]
        0 <= j < qubits.len() ==> {
            &&& drew(draw, chain[j], qubits[j], Ok::<(bool, S), Error>((outcomes[j], factors[j])))
            &&& chain[j + 1].wf()
            &&& chain[j + 1].num_qubits == start.num_qubits
            &&& collapsed(
                chain[j].state_vector@,
                chain[j + 1].state_vector@,
                qubits[j],
                outcomes[j],
                zero,
                factors[j],
                scale,
            )
        }
}

/// `draw` may return `r` when asked for qubit `q` of state `s`.
pub open spec fn drew<A, S, D>(draw: D, s: State<A>, q: usize, r: Result<(bool, S), Error>) -> bool where
    D: Fn(&State<A>, usize) -> Result<(bool, S), Error>,
 {
    draw.ensures((&s, q), r)
}

/// The outcome bit of a measured qubit.
pub open spec fn outcome_bit(b: bool) -> u8 {
    if b {
        1
    } else {
        0
    }
}

/// A run of collapses extends by one more collapse.
pub proof fn lemma_collapse_run_extend<A: Copy, S, D, G>(
    start: State<A>,
    qubits: Seq<usize>,
    draw: D,
    scale: G,
    zero: A,
    chain: Seq<State<A>>,
    outcomes: Seq<bool>,
    factors: Seq<S>,
    q: usize,
    outcome: bool,
    factor: S,
    next: State<A>,
) where
    D: Fn(&State<A>, usize) -> Result<(bool, S), Error>,
    G: Fn(S, A) -> A,

    requires
        collapse_run(start, qubits, draw, scale, zero, chain, outcomes, factors),
        drew(draw, chain.last(), q, Ok::<(bool, S), Error>((outcome, factor))),
        next.wf(),
        next.num_qubits == start.num_qubits,
        collapsed(chain.last().state_vector@, next.state_vector@, q, outcome, zero, factor, scale),
    ensures
        collapse_run(
            start,
            qubits.push(q),
            draw,
            scale,
            zero,
            chain.push(next),
            outcomes.push(outcome),
            factors.push(factor),
        ),
{
    let c2 = chain.push(next);
    let q2 = qubits.push(q);
    let o2 = outcomes.push(outcome);
    let f2 = factors.push(factor);
    assert forall|j: int|
        #![trigger c2[j + 1]]
        0 <= j < qubits.len() implies c2[j] == chain[j] && c2[j + 1] == chain[j + 1] && q2[j]
        == qubits[j] && o2[j] == outcomes[j] && f2[j] == factors[j] by {}
    assert(c2[qubits.len() as int] == chain.last());
    let last = qubits.len() as int;
    assert(q2[last] == q);
    assert(o2[last] == outcome);
    assert(f2[last] == factor);
    assert(drew(draw, c2[last], q2[last], Ok::<(bool, S), Error>((o2[last], f2[last]))));
    assert forall|j: int| 0 <= j < qubits.len() implies drew(draw, c2[j], q2[j], Ok::<(bool, S), Error>((o2[j], f2[j]))) by {
        assert(chain[j + 1] == c2[j + 1]);
    }
}

impl<A: Copy> State<A> {
    /// Applies `op` to each qubit of `qubits` in turn, without controls.
    pub fn rotate_each<T: Copy, M: Copy, F: Fn(Operator<T, M>, A, A) -> (A, A)>(
        &self,
        op: Operator<T, M>,
        qubits: &Vec<usize>,
        act: &F,
    ) -> (r: Self)
        requires
            self.wf(),
            all_below(qubits@, self.num_qubits),
            op.expected_targets() == 1,
            !(op is CNOT),
            !(op is Toffoli),
            forall|o: Operator<T, M>, a0: A, a1: A| act.requires((o, a0, a1)),
        ensures
            r.wf(),
            r.num_qubits == self.num_qubits,
            exists|chain: Seq<State<A>>|
                rotation_run(*self, op, qubits@, *act, chain) && #[trigger] chain.last() == r,
    {
        let mut current = self.copy();
        let ghost mut chain: Seq<State<A>> = seq![current];
        let none: Vec<usize> = Vec::new();
        let mut k: usize = 0;
        while k < qubits.len()
            invariant
                k <= qubits@.len(),
                self.wf(),
                all_below(qubits@, self.num_qubits),
                op.expected_targets() == 1,
                !(op is CNOT),
                !(op is Toffoli),
                forall|o: Operator<T, M>, a0: A, a1: A| act.requires((o, a0, a1)),
                none@ == Seq::<usize>::empty(),
                current.wf(),
                current.num_qubits == self.num_qubits,
                rotation_run(*self, op, qubits@.take(k as int), *act, chain),
                chain.last() == current,
            decreases qubits@.len() - k,
        {
            let target = vec![qubits[k]];
            assert(target@ =~= seq![qubits@[k as int]]);
            proof {
                lemma_first_out_of_range(target@, self.num_qubits);
                assert(first_bad_control(none@, target@, self.num_qubits) is None);
            }
            let next = match op.apply(&current, &target, &none, act) {
                Ok(s) => s,
                Err(_) => {
                    // the target is in range and there are no controls
                    assert(false);
                    current.copy()
                },
            };
            proof {
                let prev = chain;
                chain = chain.push(next);
                assert forall|m: int|
                    #![trigger chain[m + 1]]
                    0 <= m < k + 1 implies chain[m + 1].wf() && chain[m + 1].num_qubits
                    == self.num_qubits && op.applied(
                    chain[m].state_vector@,
                    seq![qubits@.take(k + 1)[m]],
                    Seq::empty(),
                    *act,
                    chain[m + 1].state_vector@,
                ) by {
                    if m < k {
                        assert(prev[m + 1] == chain[m + 1]);
                        assert(qubits@.take(k as int)[m] == qubits@.take(k + 1)[m]);
                    }
                }
            }
            current = next;
            k += 1;
        }
        assert(qubits@.take(k as int) =~= qubits@);
        current
    }

    /// Measures each qubit of `indices` in turn in the computational basis:
    /// `draw` picks the outcome of a qubit on the current state, with the
    /// factor that `scale` renormalises the surviving amplitudes by, and the
    /// state collapses before the next qubit is drawn. Returns the outcome
    /// bits, in the order of `indices`, and the final state; the first
    /// failure of `draw` stops the measurement and is returned.
    pub fn measure_computational<S: Copy, D, G>(
        &self,
        indices: &Vec<usize>,
        draw: &D,
        scale: &G,
        zero: A,
    ) -> (r: Result<(Vec<u8>, Self), Error>) where
        D: Fn(&State<A>, usize) -> Result<(bool, S), Error>,
        G: Fn(S, A) -> A,

        requires
            self.wf(),
            all_below(indices@, self.num_qubits),
            forall|s: &State<A>, q: usize| draw.requires((s, q)),
            forall|f: S, a: A| scale.requires((f, a)),
        ensures
            r is Ok ==> r->Ok_0.1.wf() && r->Ok_0.1.num_qubits == self.num_qubits && exists|
                chain: Seq<State<A>>,
                outcomes: Seq<bool>,
                factors: Seq<S>,
            |
                #[trigger] collapse_run(*self, indices@, *draw, *scale, zero, chain, outcomes, factors)
                    && chain.last() == r->Ok_0.1 && r->Ok_0.0@ == outcomes.map_values(
                    |b: bool| outcome_bit(b),
                ),
            r is Err ==> exists|
                chain: Seq<State<A>>,
                outcomes: Seq<bool>,
                factors: Seq<S>,
                k: int,
            |
                0 <= k < indices@.len() && #[trigger] collapse_run(
                    *self,
                    indices@.take(k),
                    *draw,
                    *scale,
                    zero,
                    chain,
                    outcomes,
                    factors,
                ) && draw.ensures(
                    (&chain[k], indices@[k]),
                    Err::<(bool, S), Error>(r->Err_0),
                ),
            (forall|s: &State<A>, q: usize, d: Result<(bool, S), Error>|
                draw.ensures((s, q), d) ==> d is Ok) ==> r is Ok,
    {
        let mut current = self.copy();
        let mut bits: Vec<u8> = Vec::new();
        let ghost mut chain: Seq<State<A>> = seq![current];
        let ghost mut outcomes: Seq<bool> = Seq::empty();
        let ghost mut factors: Seq<S> = Seq::empty();
        let mut k: usize = 0;
        while k < indices.len()
            invariant
                k <= indices@.len(),
                self.wf(),
                all_below(indices@, self.num_qubits),
                forall|s: &State<A>, q: usize| draw.requires((s, q)),
                forall|f: S, a: A| scale.requires((f, a)),
                current.wf(),
                current.num_qubits == self.num_qubits,
                collapse_run(*self, indices@.take(k as int), *draw, *scale, zero, chain, outcomes, factors),
                chain.last() == current,
                bits@ == outcomes.map_values(|b: bool| outcome_bit(b)),
            decreases indices@.len() - k,
        {
            let q = indices[k];
            let ghost before = current;
            match draw(&current, q) {
                Ok((outcome, factor)) => {

                    let next = current.collapse(q, outcome, zero, factor, scale);
                    proof {
                        assert(indices@.take(k + 1) =~= indices@.take(k as int).push(q));
                        lemma_collapse_run_extend(
                            *self,
                            indices@.take(k as int),
                            *draw,
                            *scale,
                            zero,
                            chain,
                            outcomes,
                            factors,
                            q,
                            outcome,
                            factor,
                            next,
                        );
                        chain = chain.push(next);
                        outcomes = outcomes.push(outcome);
                        factors = factors.push(factor);
                    }
                    bits.push(if outcome { 1 } else { 0 });
                    proof {
                        assert(bits@ =~= outcomes.map_values(|b: bool| outcome_bit(b)));
                    }
                    current = next;
                },
                Err(e) => {
                    proof {
                        assert(draw.ensures((&chain[k as int], indices@[k as int]), Err::<(bool, S), Error>(e)));
                    }
                    return Err(e);
                },
            }
            k += 1;
        }
        assert(indices@.take(k as int) =~= indices@);
        Ok((bits, current))
    }
}

/// `end` is `start` after each operator of `ops`, in order, was applied to
/// every qubit of `qubits`.
pub open spec fn rotated_by<T: Copy, M: Copy, A: Copy, F: Fn(Operator<T, M>, A, A) -> (A, A)>(
    start: State<A>,
    ops: Seq<Operator<T, M>>,
    qubits: Seq<usize>,
    act: F,
    end: State<A>,
) -> bool
    decreases ops.len(),
{
    if ops.len() == 0 {
        end.num_qubits == start.num_qubits && end.state_vector@ == start.state_vector@
    } else {
        exists|mid: State<A>, chain: Seq<State<A>>|
            rotated_by(start, ops.drop_last(), qubits, act, mid) && #[trigger] rotation_run(
                mid,
                ops.last(),
                qubits,
                act,
                chain,
            ) && chain.last() == end
    }
}

/// `into` takes `basis` to the computational one: the fixed rotation of a
/// fixed basis, the adjoint of the matrix of a custom one.
pub open spec fn rotation_into_ok<T, M, J: Fn(M) -> M>(
    basis: MeasurementBasis<M>,
    adjoint: J,
    into: Seq<Operator<T, M>>,
) -> bool {
    match basis {
        MeasurementBasis::Custom(m) => into.len() == 1 && into[0] is Unitary2 && adjoint.ensures(
            (m,),
            into[0]->Unitary2_0,
        ),
        _ => into == rotation_into_spec::<T, M>(basis),
    }
}

impl<A: Copy> State<A> {
    /// Applies each operator of `ops`, in order, to every qubit of `qubits`.
    fn rotate_all<T: Copy, M: Copy, F: Fn(Operator<T, M>, A, A) -> (A, A)>(
        &self,
        ops: &Vec<Operator<T, M>>,
        qubits: &Vec<usize>,
        act: &F,
    ) -> (r: Self)
        requires
            self.wf(),
            all_below(qubits@, self.num_qubits),
            forall|k: int|
                0 <= k < ops@.len() ==> (#[trigger] ops@[k]).expected_targets() == 1 && !(
                ops@[k] is CNOT) && !(ops@[k] is Toffoli),
            forall|o: Operator<T, M>, a0: A, a1: A| act.requires((o, a0, a1)),
        ensures
            r.wf(),
            r.num_qubits == self.num_qubits,
            rotated_by(*self, ops@, qubits@, *act, r),
    {
        let mut current = self.copy();
        let mut i: usize = 0;
        assert(ops@.take(0) =~= Seq::<Operator<T, M>>::empty());
        while i < ops.len()
            invariant
                i <= ops@.len(),
                self.wf(),
                all_below(qubits@, self.num_qubits),
                forall|k: int|
                    0 <= k < ops@.len() ==> (#[trigger] ops@[k]).expected_targets() == 1 && !(
                    ops@[k] is CNOT) && !(ops@[k] is Toffoli),
                forall|o: Operator<T, M>, a0: A, a1: A| act.requires((o, a0, a1)),
                current.wf(),
                current.num_qubits == self.num_qubits,
                rotated_by(*self, ops@.take(i as int), qubits@, *act, current),
            decreases ops@.len() - i,
        {
            let op = ops[i];
            let next = current.rotate_each(op, qubits, act);
            proof {
                let chain = choose|chain: Seq<State<A>>|
                    rotation_run(current, op, qubits@, *act, chain) && #[trigger] chain.last() == next;
                assert(ops@.take(i + 1).drop_last() =~= ops@.take(i as int));
                assert(ops@.take(i + 1).last() == op);
                assert(rotation_run(current, ops@.take(i + 1).last(), qubits@, *act, chain));
            }
            current = next;
            i += 1;
        }
        assert(ops@.take(i as int) =~= ops@);
        current
    }

    /// Measures each qubit of `indices`, in order, in `basis`: the state is
    /// rotated into the computational basis (a custom basis through the
    /// adjoint of its matrix, which `adjoint` forms), each qubit collapses in
    /// turn as `measure_computational` does, and the state is rotated back.
    pub fn measure<T: Copy, M: Copy, S: Copy, F, J, D, G>(
        &self,
        basis: MeasurementBasis<M>,
        indices: &Vec<usize>,
        act: &F,
        adjoint: &J,
        draw: &D,
        scale: &G,
        zero: A,
    ) -> (r: Result<MeasurementResult<A, M>, Error>) where
        F: Fn(Operator<T, M>, A, A) -> (A, A),
        J: Fn(M) -> M,
        D: Fn(&State<A>, usize) -> Result<(bool, S), Error>,
        G: Fn(S, A) -> A,

        requires
            self.wf(),
            forall|o: Operator<T, M>, a0: A, a1: A| act.requires((o, a0, a1)),
            forall|m: M| adjoint.requires((m,)),
            forall|s: &State<A>, q: usize| draw.requires((s, q)),
            forall|f: S, a: A| scale.requires((f, a)),
        ensures
            validation_error(self.num_qubits, indices@, Seq::empty(), indices@.len() as usize) is Some
                ==> r == Err::<MeasurementResult<A, M>, Error>(
                validation_error(
                    self.num_qubits,
                    indices@,
                    Seq::empty(),
                    indices@.len() as usize,
                )->Some_0,
            ),
            r is Ok ==> {
                let m = r->Ok_0;
                &&& m.basis == basis
                &&& m.indices@ == indices@
                &&& m.new_state.wf()
                &&& m.new_state.num_qubits == self.num_qubits
                &&& exists|
                    into: Seq<Operator<T, M>>,
                    rotated: State<A>,
                    chain: Seq<State<A>>,
                    outcomes: Seq<bool>,
                    factors: Seq<S>,
                |
                    #![trigger collapse_run(rotated, indices@, *draw, *scale, zero, chain, outcomes, factors), rotated_by(*self, into, indices@, *act, rotated)]
                    collapse_run(
                        rotated,
                        indices@,
                        *draw,
                        *scale,
                        zero,
                        chain,
                        outcomes,
                        factors,
                    ) && rotation_into_ok(basis, *adjoint, into) && rotated_by(
                        *self,
                        into,
                        indices@,
                        *act,
                        rotated,
                    ) && m.outcomes@ == outcomes.map_values(|b: bool| outcome_bit(b))
                        && rotated_by(
                        chain.last(),
                        rotation_back_spec::<T, M>(basis),
                        indices@,
                        *act,
                        m.new_state,
                    )
            },
            validation_error(self.num_qubits, indices@, Seq::empty(), indices@.len() as usize) is None
                && r is Err ==> exists|
                into: Seq<Operator<T, M>>,
                rotated: State<A>,
                chain: Seq<State<A>>,
                outcomes: Seq<bool>,
                factors: Seq<S>,
                k: int,
            |
                #![trigger collapse_run(rotated, indices@.take(k), *draw, *scale, zero, chain, outcomes, factors), rotated_by(*self, into, indices@, *act, rotated)]
                0 <= k < indices@.len() && rotation_into_ok(basis, *adjoint, into) && rotated_by(
                    *self,
                    into,
                    indices@,
                    *act,
                    rotated,
                ) && collapse_run(
                    rotated,
                    indices@.take(k),
                    *draw,
                    *scale,
                    zero,
                    chain,
                    outcomes,
                    factors,
                ) && draw.ensures((&chain[k], indices@[k]), Err::<(bool, S), Error>(r->Err_0)),
            indices@.len() == 0 ==> r is Ok,
            validation_error(self.num_qubits, indices@, Seq::empty(), indices@.len() as usize) is None
                && (forall|s: &State<A>, q: usize, d: Result<(bool, S), Error>|
                draw.ensures((s, q), d) ==> d is Ok) ==> r is Ok,
    {
        let none: Vec<usize> = Vec::new();
        validate_qubits(self.num_qubits, indices, &none, indices.len())?;
        proof {
            lemma_validation_accepts(self.num_qubits, indices@, none@, indices@.len() as usize);
        }
        let into: Vec<Operator<T, M>> = match basis {
            MeasurementBasis::Custom(m) => vec![Operator::Unitary2(adjoint(m))],
            _ => basis.rotation_into(),
        };
        let back: Vec<Operator<T, M>> = basis.rotation_back();
        let rotated = self.rotate_all(&into, indices, act);
        let (outcomes, collapsed_state) = rotated.measure_computational(indices, draw, scale, zero)?;
        let new_state = collapsed_state.rotate_all(&back, indices, act);
        let ghost into_ops = into@;
        let ghost mid = rotated;
        let ghost before_back = collapsed_state;
        let result = MeasurementResult { basis, indices: crate::kernels::copy_vec(indices), outcomes, new_state };
        proof {
            let (chain, outs, facs) = choose|chain: Seq<State<A>>, outs: Seq<bool>, facs: Seq<S>|
                #[trigger] collapse_run(mid, indices@, *draw, *scale, zero, chain, outs, facs)
                    && chain.last() == before_back && result.outcomes@ == outs.map_values(
                    |b: bool| outcome_bit(b),
                );
            assert(collapse_run(mid, indices@, *draw, *scale, zero, chain, outs, facs));
            assert(rotation_into_ok(basis, *adjoint, into_ops));
        }
        Ok(result)
    }
}

} // verus!
