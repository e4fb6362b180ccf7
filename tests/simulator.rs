use num_complex::Complex;
use quant_iron::builder::CircuitBuilder;
use quant_iron::circuit::Circuit;
use quant_iron::dispatch::{select_backend, Backend};
use quant_iron::errors::Error;
use quant_iron::gate::Gate;
use quant_iron::kernels::{assemble_pairs, flip_entry, flip_kernel, pair_entry, pair_kernel, swap_entry, swap_kernel};
use rayon::iter::{IntoParallelIterator, ParallelIterator};
use quant_iron::measurement::MeasurementBasis;
use quant_iron::operator::{Operator, Pauli};
use quant_iron::state::State;
use quant_iron::subroutine::Subroutine;
use quant_iron::validation::validate_qubits;
use rand::rngs::StdRng;
use rand::{Rng, SeedableRng};
use std::cell::RefCell;

type C = Complex<f64>;
type M2 = [[C; 2]; 2];
type Op = Operator<f64, M2>;

const TOL: f64 = 1e-9;

fn c(re: f64, im: f64) -> C {
    Complex::new(re, im)
}

fn act(op: Op, a0: C, a1: C) -> (C, C) {
    let i = c(0.0, 1.0);
    let h = 1.0 / 2.0f64.sqrt();
    match op {
        Operator::Hadamard => ((a0 + a1) * h, (a0 - a1) * h),
        Operator::Pauli(Pauli::X) | Operator::CNOT | Operator::Toffoli => (a1, a0),
        Operator::Pauli(Pauli::Y) => (-i * a1, i * a0),
        Operator::Pauli(Pauli::Z) => (a0, -a1),
        Operator::Identity | Operator::SWAP => (a0, a1),
        Operator::PhaseS => (a0, a1 * i),
        Operator::PhaseSdag => (a0, -a1 * i),
        Operator::PhaseT => (a0, a1 * c(h, h)),
        Operator::PhaseTdag => (a0, a1 * c(h, -h)),
        Operator::PhaseShift(t) => (a0, a1 * c(t.cos(), t.sin())),
        Operator::RotateX(t) => {
            let (co, si) = ((t / 2.0).cos(), (t / 2.0).sin());
            (a0 * co - i * a1 * si, -i * a0 * si + a1 * co)
        }
        Operator::RotateY(t) => {
            let (co, si) = ((t / 2.0).cos(), (t / 2.0).sin());
            (a0 * co - a1 * si, a0 * si + a1 * co)
        }
        Operator::RotateZ(t) => (a0 * c((t / 2.0).cos(), -(t / 2.0).sin()), a1 * c((t / 2.0).cos(), (t / 2.0).sin())),
        Operator::Unitary2(m) => (m[0][0] * a0 + m[0][1] * a1, m[1][0] * a0 + m[1][1] * a1),
    }
}

fn no_measure(_b: MeasurementBasis<M2>, _q: &Vec<usize>, s: &State<C>) -> Result<State<C>, Error> {
    Ok(s.copy())
}

fn basis(n: usize, k: usize) -> State<C> {
    State::basis(n, k, c(0.0, 0.0), c(1.0, 0.0))
}

fn apply(op: Op, s: &State<C>, t: Vec<usize>, ctl: Vec<usize>) -> State<C> {
    op.apply(s, &t, &ctl, &act).unwrap()
}

fn assert_amps(s: &State<C>, expected: &[C]) {
    assert_eq!(s.state_vector.len(), expected.len());
    for (a, e) in s.state_vector.iter().zip(expected) {
        assert!((a - e).norm() <= TOL, "{:?} vs {:?}", s.state_vector, expected);
    }
}

fn close(a: &State<C>, b: &State<C>) -> bool {
    a.num_qubits == b.num_qubits
        && a.state_vector.iter().zip(&b.state_vector).all(|(x, y)| (x - y).norm() <= TOL)
}

fn norm(s: &State<C>) -> f64 {
    s.state_vector.iter().map(|a| a.norm_sqr()).sum()
}

fn sample_state(n: usize) -> State<C> {
    let dim = 1usize << n;
    let raw: Vec<C> = (0..dim).map(|k| c((k as f64 * 0.37).sin() + 0.1, (k as f64 * 0.71).cos())).collect();
    let nrm = raw.iter().map(|a| a.norm_sqr()).sum::<f64>().sqrt();
    State::from_amplitudes(raw.iter().map(|a| a / nrm).collect()).unwrap()
}

#[test]
fn bell_pair() {
    let mut b = CircuitBuilder::<f64, M2>::new(2);
    b.h_gate(0).cnot_gate(1, 0);
    let circuit = b.build().unwrap();
    let out = circuit.execute(&basis(2, 0), &act, &no_measure).unwrap();
    let h = 1.0 / 2.0f64.sqrt();
    assert_amps(&out, &[c(h, 0.0), c(0.0, 0.0), c(0.0, 0.0), c(h, 0.0)]);
}

#[test]
fn ghz_three_qubits() {
    let mut b = CircuitBuilder::<f64, M2>::new(3);
    b.h_gate(0).cnot_gate(1, 0).cnot_gate(2, 0);
    let out = b.build_final().unwrap().execute(&basis(3, 0), &act, &no_measure).unwrap();
    let h = 1.0 / 2.0f64.sqrt();
    let mut expected = vec![c(0.0, 0.0); 8];
    expected[0] = c(h, 0.0);
    expected[7] = c(h, 0.0);
    assert_amps(&out, &expected);
}

fn kickback_circuit() -> Circuit<f64, M2> {
    let mut b = CircuitBuilder::<f64, M2>::new(2);
    b.h_gate(1).cz_gates(vec![0], vec![1]).h_gate(1);
    b.build().unwrap()
}

fn up_to_global_phase(out: &State<C>) -> State<C> {
    let k = out.state_vector.iter().position(|a| a.norm() > 1e-6).unwrap();
    let phase = out.state_vector[k] / out.state_vector[k].norm();
    State { state_vector: out.state_vector.iter().map(|a| a / phase).collect(), num_qubits: out.num_qubits }
}

#[test]
fn phase_kickback_returns_to_start() {
    // |10> under the LSB convention: qubit 1 set, qubit 0 clear
    let start = basis(2, 2);
    let out = kickback_circuit().execute(&start, &act, &no_measure).unwrap();
    assert!(close(&up_to_global_phase(&out), &start));
}

#[test]
fn phase_kickback_flips_control_when_target_is_one() {
    let out = kickback_circuit().execute(&basis(2, 1), &act, &no_measure).unwrap();
    assert!(close(&up_to_global_phase(&out), &basis(2, 3)));
}

#[test]
fn rx_pi_on_zero() {
    let out = apply(Operator::RotateX(std::f64::consts::PI), &basis(1, 0), vec![0], vec![]);
    assert_amps(&out, &[c(0.0, 0.0), c(0.0, -1.0)]);
}

#[test]
fn swap_01_gives_10() {
    let out = apply(Operator::SWAP, &basis(2, 1), vec![0, 1], vec![]);
    assert_amps(&out, &[c(0.0, 0.0), c(0.0, 0.0), c(1.0, 0.0), c(0.0, 0.0)]);
}

#[test]
fn toffoli_truth_table() {
    for input in 0..8usize {
        let out = apply(Operator::Toffoli, &basis(3, input), vec![2], vec![0, 1]);
        let expected = if input & 0b011 == 0b011 { input ^ 0b100 } else { input };
        assert!(close(&out, &basis(3, expected)), "input {input}");
    }
}

#[test]
fn identity_is_exact() {
    let s = sample_state(3);
    let out = apply(Operator::Identity, &s, vec![1], vec![]);
    assert_eq!(out.state_vector, s.state_vector);
}

#[test]
fn involutions_give_back_the_state() {
    let s = sample_state(3);
    let single: Vec<Op> = vec![
        Operator::Pauli(Pauli::X),
        Operator::Pauli(Pauli::Y),
        Operator::Pauli(Pauli::Z),
        Operator::Hadamard,
    ];
    for op in single {
        let twice = apply(op, &apply(op, &s, vec![1], vec![]), vec![1], vec![]);
        assert!(close(&twice, &s), "{op:?}");
    }
    let twice = apply(Operator::SWAP, &apply(Operator::SWAP, &s, vec![0, 2], vec![]), vec![0, 2], vec![]);
    assert_eq!(twice.state_vector, s.state_vector);
    let twice = apply(Operator::CNOT, &apply(Operator::CNOT, &s, vec![2], vec![0]), vec![2], vec![0]);
    assert_eq!(twice.state_vector, s.state_vector);
}

#[test]
fn inverse_pairs_give_back_the_state() {
    let s = sample_state(2);
    let theta = 0.83;
    let pairs: Vec<(Op, Op)> = vec![
        (Operator::PhaseS, Operator::PhaseSdag),
        (Operator::PhaseT, Operator::PhaseTdag),
        (Operator::RotateX(theta), Operator::RotateX(-theta)),
        (Operator::RotateY(theta), Operator::RotateY(-theta)),
        (Operator::RotateZ(theta), Operator::RotateZ(-theta)),
        (Operator::PhaseShift(theta), Operator::PhaseShift(-theta)),
    ];
    for (a, b) in pairs {
        let back = apply(b, &apply(a, &s, vec![0], vec![1]), vec![0], vec![1]);
        assert!(close(&back, &s), "{a:?}");
    }
}

#[test]
fn unitary_gates_keep_the_norm() {
    let s = sample_state(3);
    let mut b = CircuitBuilder::<f64, M2>::new(3);
    b.h_gates(vec![0, 1, 2]).rx_gate(1, 0.4).cry_gates(vec![0], vec![2], 1.3).t_gate(2).swap_gate(0, 1).toffoli_gate(0, 1, 2);
    let out = b.build().unwrap().execute(&s, &act, &no_measure).unwrap();
    assert!((norm(&out) - 1.0).abs() <= TOL);
}

#[test]
fn unset_control_leaves_basis_state() {
    let ops: Vec<(Op, Vec<usize>)> = vec![
        (Operator::Hadamard, vec![0]),
        (Operator::Pauli(Pauli::X), vec![0]),
        (Operator::Pauli(Pauli::Y), vec![0]),
        (Operator::RotateX(0.5), vec![0]),
        (Operator::PhaseS, vec![0]),
        (Operator::SWAP, vec![0, 1]),
    ];
    for (op, targets) in ops {
        // qubit 2 is the control and is 0 in |011>
        let s = basis(3, 0b011);
        let out = apply(op, &s, targets, vec![2]);
        assert_eq!(out.state_vector, s.state_vector, "{op:?}");
    }
}

#[test]
fn sequential_and_work_item_tiers_agree() {
    for n in 10..=12usize {
        let s = sample_state(n);
        let amps = &s.state_vector;
        let controls = vec![n - 1];
        for op in [Operator::Hadamard, Operator::RotateY(0.7), Operator::Pauli(Pauli::Y)] {
            let seq = pair_kernel(amps, n, 3, &controls, &act, op);
            let items: Vec<Option<(C, C)>> =
                (0..amps.len()).into_par_iter().map(|i| pair_entry(amps, n, 3, &controls, &act, op, i)).collect();
            let par = assemble_pairs(amps, n, 3, &controls, &items, &act, op);
            for (x, y) in seq.iter().zip(&par) {
                assert!((x - y).norm() <= 1e-5);
            }
        }
        let flips = flip_kernel(amps, n, 2, &controls);
        let flip_items: Vec<C> = (0..amps.len()).into_par_iter().map(|i| flip_entry(amps, n, 2, &controls, i)).collect();
        assert_eq!(flips, flip_items);
        let swaps = swap_kernel(amps, n, 0, 4, &controls);
        let swap_items: Vec<C> = (0..amps.len()).into_par_iter().map(|i| swap_entry(amps, n, 0, 4, &controls, i)).collect();
        assert_eq!(swaps, swap_items);
    }
}

#[test]
fn collapse_keeps_only_the_outcome() {
    let plus = apply(Operator::Hadamard, &basis(1, 0), vec![0], vec![]);
    let scale = 2.0f64.sqrt();
    let once = plus.collapse(0, true, c(0.0, 0.0), scale, &|f: f64, a: C| a * f);
    assert_amps(&once, &[c(0.0, 0.0), c(1.0, 0.0)]);
    let p_other: f64 = once.state_vector[0].norm_sqr();
    assert_eq!(p_other, 0.0);
    let again = once.collapse(0, true, c(0.0, 0.0), 1.0, &|f: f64, a: C| a * f);
    assert_eq!(again.state_vector, once.state_vector);
}

#[test]
fn validation_errors() {
    let n = 3;
    assert_eq!(validate_qubits(n, &vec![0, 1], &vec![], 1), Err(Error::InvalidNumberOfQubits(2)));
    assert_eq!(validate_qubits(n, &vec![5], &vec![], 1), Err(Error::InvalidQubitIndex(5, 3)));
    assert_eq!(validate_qubits(n, &vec![0], &vec![4], 1), Err(Error::InvalidQubitIndex(4, 3)));
    assert_eq!(validate_qubits(n, &vec![1], &vec![1], 1), Err(Error::OverlappingControlAndTargetQubits(1, 1)));
    assert_eq!(validate_qubits(n, &vec![2, 2], &vec![], 2), Err(Error::InvalidQubitIndex(2, 3)));
    assert_eq!(validate_qubits(n, &vec![0, 2], &vec![1], 2), Ok(()));
}

#[test]
fn fixed_arity_gate_errors() {
    let s = basis(3, 0);
    assert_eq!(Operator::<f64, M2>::CNOT.apply(&s, &vec![0], &vec![1, 2], &act).err(), Some(Error::InvalidNumberOfQubits(2)));
    assert_eq!(Operator::<f64, M2>::Toffoli.apply(&s, &vec![0], &vec![1], &act).err(), Some(Error::InvalidNumberOfQubits(1)));
    assert_eq!(Operator::<f64, M2>::Toffoli.apply(&s, &vec![0], &vec![2, 2], &act).err(), Some(Error::DuplicateControlQubit(2)));
    assert_eq!(Operator::<f64, M2>::SWAP.apply(&s, &vec![1, 1], &vec![], &act).err(), Some(Error::InvalidQubitIndex(1, 3)));
    assert_eq!(Operator::<f64, M2>::SWAP.base_qubits(), 2);
    assert_eq!(Operator::<f64, M2>::Toffoli.base_qubits(), 1);
    assert_eq!(Operator::<f64, M2>::CNOT.base_qubits(), 1);
    assert_eq!(Operator::<f64, M2>::Hadamard.base_qubits(), 1);
}

#[test]
fn circuit_checks_qubit_ranges() {
    let gates = vec![Gate::<f64, M2>::single_qubit_gate(Operator::Hadamard, 0), Gate::Operator(Operator::CNOT, vec![1], vec![4])];
    assert_eq!(Circuit::with_gates(gates, 2).err(), Some(Error::InvalidQubitIndex(4, 2)));
    let mut circuit = Circuit::<f64, M2>::new(2);
    assert_eq!(circuit.add_gate(Gate::single_qubit_gate(Operator::Hadamard, 3)), Err(Error::InvalidQubitIndex(3, 2)));
    assert_eq!(circuit.get_gates().len(), 0);
    assert_eq!(circuit.add_gates(Gate::multi_qubit_gates(Operator::Hadamard, &vec![0, 1])), Ok(()));
    assert_eq!(circuit.get_gates().len(), 2);
    assert_eq!(circuit.get_num_qubits(), 2);
}

#[test]
fn execute_rejects_wrong_state_size() {
    let circuit = Circuit::<f64, M2>::new(2);
    assert_eq!(circuit.execute(&basis(3, 0), &act, &no_measure).err(), Some(Error::InvalidNumberOfQubits(3)));
    assert_eq!(circuit.trace_execution(&basis(1, 0), &act, &no_measure).err(), Some(Error::InvalidNumberOfQubits(1)));
}

#[test]
fn execute_stops_at_failing_gate() {
    let mut circuit = Circuit::<f64, M2>::new(2);
    circuit.add_gate(Gate::single_qubit_gate(Operator::Hadamard, 0)).unwrap();
    circuit.add_gate(Gate::Operator(Operator::CNOT, vec![1], vec![])).unwrap();
    assert_eq!(circuit.execute(&basis(2, 0), &act, &no_measure).err(), Some(Error::InvalidNumberOfQubits(0)));
}

#[test]
fn trace_has_every_intermediate_state() {
    let mut b = CircuitBuilder::<f64, M2>::new(2);
    b.x_gate(0).x_gate(1);
    let trace = b.build().unwrap().trace_execution(&basis(2, 0), &act, &no_measure).unwrap();
    assert_eq!(trace.len(), 3);
    assert!(close(&trace[0], &basis(2, 0)));
    assert!(close(&trace[1], &basis(2, 1)));
    assert!(close(&trace[2], &basis(2, 3)));
}

#[test]
fn measurement_gate_goes_through_the_routine() {
    let mut b = CircuitBuilder::<f64, M2>::new(1);
    b.x_gate(0).measure_gate(MeasurementBasis::Computational, vec![0]);
    let collapse_to_zero = |_b: MeasurementBasis<M2>, qs: &Vec<usize>, s: &State<C>| -> Result<State<C>, Error> {
        Ok(s.collapse(qs[0], false, c(0.0, 0.0), 1.0, &|f: f64, a: C| a * f))
    };
    let out = b.build().unwrap().execute(&basis(1, 0), &act, &collapse_to_zero).unwrap();
    assert_amps(&out, &[c(0.0, 0.0), c(0.0, 0.0)]);
    let failing = |_b: MeasurementBasis<M2>, _q: &Vec<usize>, _s: &State<C>| -> Result<State<C>, Error> { Err(Error::NumericalError) };
    assert_eq!(b.build().unwrap().execute(&basis(1, 0), &act, &failing).err(), Some(Error::NumericalError));
}

#[test]
fn builder_final_and_subroutine_clear_the_builder() {
    let mut b = CircuitBuilder::<f64, M2>::new(2);
    b.h_gate(0).swap_gate(0, 1);
    let kept = b.build().unwrap();
    assert_eq!(kept.gates.len(), 2);
    assert_eq!(b.gates.len(), 2);
    let sub = b.build_subroutine();
    assert_eq!(sub.gates.len(), 2);
    assert_eq!(b.gates.len(), 0);
    b.add_subroutine(sub).z_gates(vec![0, 1]);
    let c2 = b.build_final().unwrap();
    assert_eq!(c2.gates.len(), 4);
    assert_eq!(b.gates.len(), 0);
    let mut bad = CircuitBuilder::<f64, M2>::new(1);
    bad.cswap_gate(0, 1, vec![]);
    assert_eq!(bad.build().err(), Some(Error::InvalidQubitIndex(1, 1)));
    let empty = Subroutine::<f64, M2>::new(2);
    assert_eq!(empty.gates.len(), 0);
}

#[test]
fn builder_gates_carry_their_operators() {
    let mut b = CircuitBuilder::<f64, M2>::new(3);
    b.ch_gates(vec![0, 1], vec![2]).p_gates(vec![2], 0.5).toffoli_gate(0, 1, 2);
    assert_eq!(b.gates.len(), 4);
    match &b.gates[1] {
        Gate::Operator(Operator::Hadamard, t, ctl) => {
            assert_eq!(t, &vec![1]);
            assert_eq!(ctl, &vec![2]);
        }
        other => panic!("{other:?}"),
    }
    match &b.gates[3] {
        Gate::Operator(Operator::Toffoli, t, ctl) => {
            assert_eq!(t, &vec![2]);
            assert_eq!(ctl, &vec![0, 1]);
        }
        other => panic!("{other:?}"),
    }
}

#[test]
fn state_shapes() {
    assert_eq!(State::<C>::from_amplitudes(vec![c(1.0, 0.0); 3]).err(), Some(Error::InvalidNumberOfQubits(3)));
    let s = State::from_amplitudes(vec![c(1.0, 0.0), c(0.0, 0.0), c(0.0, 0.0), c(0.0, 0.0)]).unwrap();
    assert_eq!(s.num_qubits(), 2);
    assert_eq!(s.dim(), 4);
    assert_eq!(s.amplitude(0), c(1.0, 0.0));
    assert_eq!(State::zero(3, 0u8, 1u8).state_vector, vec![1, 0, 0, 0, 0, 0, 0, 0]);
}

#[test]
fn backend_thresholds() {
    assert_eq!(select_backend(9, true), Backend::Sequential);
    assert_eq!(select_backend(10, true), Backend::Parallel);
    assert_eq!(select_backend(15, false), Backend::Parallel);
    assert_eq!(select_backend(15, true), Backend::Accelerator);
}

#[test]
fn measurement_basis_rotations() {
    let x: Vec<Op> = MeasurementBasis::<M2>::X.rotation_into();
    assert!(matches!(x.as_slice(), [Operator::Hadamard]));
    let y: Vec<Op> = MeasurementBasis::<M2>::Y.rotation_into();
    assert!(matches!(y.as_slice(), [Operator::PhaseSdag, Operator::Hadamard]));
    let back: Vec<Op> = MeasurementBasis::<M2>::Y.rotation_back();
    assert!(matches!(back.as_slice(), [Operator::Hadamard, Operator::PhaseS]));
}

fn draw_with(rng: &RefCell<StdRng>, s: &State<C>, q: usize) -> Result<(bool, f64), Error> {
    let p0: f64 = s.state_vector.iter().enumerate().filter(|(i, _)| (i >> q) & 1 == 0).map(|(_, a)| a.norm_sqr()).sum();
    let u: f64 = rng.borrow_mut().gen();
    let outcome = u >= p0;
    let p = if outcome { 1.0 - p0 } else { p0 };
    if p < 1e-12 {
        return Err(Error::NumericalError);
    }
    Ok((outcome, 1.0 / p.sqrt()))
}

fn rescale(f: f64, a: C) -> C {
    a * f
}

#[test]
fn measuring_plus_is_balanced() {
    let plus = apply(Operator::Hadamard, &basis(1, 0), vec![0], vec![]);
    let rng = RefCell::new(StdRng::seed_from_u64(7));
    let draw = |s: &State<C>, q: usize| draw_with(&rng, s, q);
    let trials = 4000usize;
    let mut ones = 0usize;
    for _ in 0..trials {
        let (bits, after) = plus.measure_computational(&vec![0], &draw, &rescale, c(0.0, 0.0)).unwrap();
        assert_eq!(bits.len(), 1);
        ones += bits[0] as usize;
        let expected = basis(1, bits[0] as usize);
        assert!(close(&after, &expected));
    }
    let expected = trials as f64 / 2.0;
    let chi2 = ((ones as f64 - expected).powi(2) + ((trials - ones) as f64 - expected).powi(2)) / expected;
    assert!(chi2 < 6.63, "chi2 {chi2}");
}

#[test]
fn measuring_again_repeats_the_outcome() {
    let rng = RefCell::new(StdRng::seed_from_u64(11));
    let draw = |s: &State<C>, q: usize| draw_with(&rng, s, q);
    let mut b = CircuitBuilder::<f64, M2>::new(2);
    b.h_gate(0).cnot_gate(1, 0);
    let bell = b.build().unwrap().execute(&basis(2, 0), &act, &no_measure).unwrap();
    for _ in 0..50 {
        let (first, after) = bell.measure_computational(&vec![0, 1], &draw, &rescale, c(0.0, 0.0)).unwrap();
        assert_eq!(first[0], first[1]);
        let (second, _) = after.measure_computational(&vec![0, 1], &draw, &rescale, c(0.0, 0.0)).unwrap();
        assert_eq!(first, second);
    }
}

#[test]
fn measuring_impossible_outcome_fails() {
    let zero_state = basis(1, 0);
    let always_one = |_s: &State<C>, _q: usize| -> Result<(bool, f64), Error> { Err(Error::NumericalError) };
    assert_eq!(zero_state.measure_computational(&vec![0], &always_one, &rescale, c(0.0, 0.0)).err(), Some(Error::NumericalError));
}

#[test]
fn rotate_each_applies_to_every_qubit() {
    let s = basis(2, 0);
    let out = s.rotate_each(Operator::Hadamard, &vec![0, 1], &act);
    assert_amps(&out, &[c(0.5, 0.0), c(0.5, 0.0), c(0.5, 0.0), c(0.5, 0.0)]);
}

#[test]
fn measuring_plus_in_x_basis_is_certain() {
    let plus = apply(Operator::Hadamard, &basis(1, 0), vec![0], vec![]);
    let rng = RefCell::new(StdRng::seed_from_u64(3));
    let draw = |s: &State<C>, q: usize| draw_with(&rng, s, q);
    let adjoint = |m: M2| [[m[0][0].conj(), m[1][0].conj()], [m[0][1].conj(), m[1][1].conj()]];
    for _ in 0..20 {
        let result = plus.measure(MeasurementBasis::X, &vec![0], &act, &adjoint, &draw, &rescale, c(0.0, 0.0)).unwrap();
        assert_eq!(result.get_outcomes(), &vec![0u8]);
        assert_eq!(result.get_indices(), &vec![0usize]);
        assert!(matches!(result.get_basis(), MeasurementBasis::X));
        assert!(close(result.get_new_state(), &plus));
    }
}

#[test]
fn measuring_in_custom_basis_rotates_back() {
    let h = 1.0 / 2.0f64.sqrt();
    let hadamard: M2 = [[c(h, 0.0), c(h, 0.0)], [c(h, 0.0), c(-h, 0.0)]];
    let minus = apply(Operator::Hadamard, &basis(1, 1), vec![0], vec![]);
    let rng = RefCell::new(StdRng::seed_from_u64(5));
    let draw = |s: &State<C>, q: usize| draw_with(&rng, s, q);
    let adjoint = |m: M2| [[m[0][0].conj(), m[1][0].conj()], [m[0][1].conj(), m[1][1].conj()]];
    let result = minus
        .measure(MeasurementBasis::Custom(hadamard), &vec![0], &act, &adjoint, &draw, &rescale, c(0.0, 0.0))
        .unwrap();
    assert_eq!(result.outcomes, vec![1u8]);
    assert!(close(&result.new_state, &minus));
}

#[test]
fn measuring_repeated_qubit_is_rejected() {
    let s = basis(2, 0);
    let rng = RefCell::new(StdRng::seed_from_u64(1));
    let draw = |st: &State<C>, q: usize| draw_with(&rng, st, q);
    let adjoint = |m: M2| m;
    let r = s.measure(MeasurementBasis::Computational, &vec![1, 1], &act, &adjoint, &draw, &rescale, c(0.0, 0.0));
    assert_eq!(r.err(), Some(Error::InvalidQubitIndex(1, 2)));
}

#[test]
fn pauli_symbols() {
    assert_eq!(Pauli::X.symbol(), "X");
    assert_eq!(Pauli::Y.symbol(), "Y");
    assert_eq!(Pauli::Z.symbol(), "Z");
}
