//! Properties that hold of every input: what the identity, the permutation
//! gates, the controls, the two execution tiers and the collapse guarantee.
use vstd::prelude::*;
use crate::bits::{
    bit, controls_set, dim, flip, lemma_flip_facts, lemma_flip_keeps_controls,
    lemma_flip_other_bit, MAX_QUBITS,
};
use crate::kernels::{flipped, kernel_ready, pairs_applied, swap_partner, swapped};
use crate::operator::Operator;
use crate::state::{basis_amplitudes, collapsed};
use crate::validation::lemma_validation_accepts;

verus! {

/// The identity operator returns the amplitudes it was given, exactly.
pub proof fn lemma_identity_exact<T: Copy, M: Copy, A, F: Fn(Operator<T, M>, A, A) -> (A, A)>(
    a: Seq<A>,
    targets: Seq<usize>,
    controls: Seq<usize>,
    act: F,
    r: Seq<A>,
)
    requires
        Operator::<T, M>::Identity.applied(a, targets, controls, act, r),
    ensures
        r == a,
{
}

/// A controlled bit flip applied twice gives back the amplitudes it started from.
pub proof fn lemma_flip_involutive<A>(a: Seq<A>, n: usize, t: usize, controls: Seq<usize>)
    requires
        kernel_ready(a, n, t, controls),
    ensures
        flipped(flipped(a, t, controls), t, controls) == a,
{
    let b = flipped(a, t, controls);
    let c = flipped(b, t, controls);
    assert forall|i: int| 0 <= i < a.len() implies #[trigger] c[i] == a[i] by {
        let iu = i as usize;
        lemma_flip_facts(iu, t, n);
        lemma_flip_keeps_controls(iu, t, controls);
    }
    assert(c =~= a);
}

/// Facts about the SWAP partner of `i`: it is in range, its own partner is
/// `i`, the two targets are exchanged, and the controls read the same.
pub proof fn lemma_swap_partner(i: usize, n: usize, t1: usize, t2: usize, controls: Seq<usize>)
    requires
        n <= MAX_QUBITS,
        t1 < n,
        t2 < n,
        t1 != t2,
        i < dim(n),
        crate::bits::all_below(controls, n),
        !controls.contains(t1),
        !controls.contains(t2),
    ensures
        swap_partner(i, t1, t2) < dim(n),
        swap_partner(swap_partner(i, t1, t2), t1, t2) == i,
        bit(swap_partner(i, t1, t2), t1) == !bit(i, t1),
        bit(swap_partner(i, t1, t2), t2) == !bit(i, t2),
        controls_set(swap_partner(i, t1, t2), controls) == controls_set(i, controls),
{
    let j = flip(i, t1);
    let p = flip(j, t2);
    lemma_flip_facts(i, t1, n);
    lemma_flip_facts(j, t2, n);
    lemma_flip_other_bit(i, t1, t2);
    lemma_flip_other_bit(j, t2, t1);
    lemma_flip_keeps_controls(i, t1, controls);
    lemma_flip_keeps_controls(j, t2, controls);
    assert((((i ^ (1usize << t1)) ^ (1usize << t2)) ^ (1usize << t1)) ^ (1usize << t2) == i)
        by (bit_vector);
}

/// A controlled SWAP applied twice gives back the amplitudes it started from.
pub proof fn lemma_swap_involutive<A>(
    a: Seq<A>,
    n: usize,
    t1: usize,
    t2: usize,
    controls: Seq<usize>,
)
    requires
        kernel_ready(a, n, t1, controls),
        t2 < n,
        t1 != t2,
        !controls.contains(t2),
    ensures
        swapped(swapped(a, t1, t2, controls), t1, t2, controls) == a,
{
    let b = swapped(a, t1, t2, controls);
    let c = swapped(b, t1, t2, controls);
    assert forall|i: int| 0 <= i < a.len() implies #[trigger] c[i] == a[i] by {
        lemma_swap_partner(i as usize, n, t1, t2, controls);
    }
    assert(c =~= a);
}

/// X, CNOT, Toffoli and SWAP are their own inverses: two successful
/// applications with the same qubits give back the amplitudes they started from.
pub proof fn lemma_permutation_gate_involutive<
    T: Copy,
    M: Copy,
    A,
    F: Fn(Operator<T, M>, A, A) -> (A, A),
>(
    op: Operator<T, M>,
    n: usize,
    a: Seq<A>,
    targets: Seq<usize>,
    controls: Seq<usize>,
    act: F,
    once: Seq<A>,
    twice: Seq<A>,
)
    requires
        op.is_flip() || op is SWAP,
        n <= MAX_QUBITS,
        a.len() == dim(n),
        op.apply_error(n, targets, controls) is None,
        op.applied(a, targets, controls, act, once),
        op.applied(once, targets, controls, act, twice),
    ensures
        twice == a,
{
    lemma_validation_accepts(n, targets, controls, op.expected_targets());
    assert(!controls.contains(targets[0])) by {
        if controls.contains(targets[0]) {
            let k = choose|k: int| 0 <= k < controls.len() && controls[k] == targets[0];
            assert(targets.contains(controls[k]));
        }
    }
    if op is SWAP {
        assert(targets[0] != targets[1]);
        assert(!controls.contains(targets[1])) by {
            if controls.contains(targets[1]) {
                let k = choose|k: int| 0 <= k < controls.len() && controls[k] == targets[1];
                assert(targets.contains(controls[k]));
            }
        }
        lemma_swap_involutive(a, n, targets[0], targets[1], controls);
    } else {
        lemma_flip_involutive(a, n, targets[0], controls);
    }
}

/// Every operator leaves alone each amplitude whose basis index has a
/// control qubit at 0.
pub proof fn lemma_unset_controls_untouched<
    T: Copy,
    M: Copy,
    A,
    F: Fn(Operator<T, M>, A, A) -> (A, A),
>(
    op: Operator<T, M>,
    a: Seq<A>,
    targets: Seq<usize>,
    controls: Seq<usize>,
    act: F,
    r: Seq<A>,
)
    requires
        op.applied(a, targets, controls, act, r),
    ensures
        r.len() == a.len(),
        forall|i: int|
            0 <= i < a.len() && !controls_set(i as usize, controls) ==> #[trigger] r[i] == a[i],
{
}

/// A controlled operator leaves a basis state `|b>` unchanged when a
/// control qubit of `b` is 0, given that its 2x2 transform keeps a zero
/// pair at zero.
pub proof fn lemma_basis_state_with_unset_control<
    T: Copy,
    M: Copy,
    A,
    F: Fn(Operator<T, M>, A, A) -> (A, A),
>(
    op: Operator<T, M>,
    n: usize,
    b: usize,
    zero: A,
    one: A,
    targets: Seq<usize>,
    controls: Seq<usize>,
    act: F,
    r: Seq<A>,
)
    requires
        n <= MAX_QUBITS,
        b < dim(n),
        !controls_set(b, controls),
        op.apply_error(n, targets, controls) is None,
        op.applied(basis_amplitudes(dim(n), b as int, zero, one), targets, controls, act, r),
        forall|out: (A, A)| act.ensures((op, zero, zero), out) ==> out == (zero, zero),
    ensures
        r == basis_amplitudes(dim(n), b as int, zero, one),
{
    let a = basis_amplitudes(dim(n), b as int, zero, one);
    lemma_validation_accepts(n, targets, controls, op.expected_targets());
    let t = targets[0];
    assert(!controls.contains(t)) by {
        if controls.contains(t) {
            let k = choose|k: int| 0 <= k < controls.len() && controls[k] == t;
            assert(targets.contains(controls[k]));
        }
    }
    if op is SWAP {
        let t2 = targets[1];
        assert(!controls.contains(t2)) by {
            if controls.contains(t2) {
                let k = choose|k: int| 0 <= k < controls.len() && controls[k] == t2;
                assert(targets.contains(controls[k]));
            }
        }
        assert forall|i: int| 0 <= i < a.len() implies #[trigger] r[i] == a[i] by {
            lemma_swap_partner(i as usize, n, t, t2, controls);
            lemma_swap_partner(b, n, t, t2, controls);
        }
    } else {
        assert forall|i: int| 0 <= i < a.len() implies #[trigger] r[i] == a[i] by {
            lemma_flip_facts(i as usize, t, n);
            lemma_flip_keeps_controls(i as usize, t, controls);
            lemma_flip_keeps_controls(b, t, controls);
            if !op.is_flip() && !(op is Identity) && controls_set(i as usize, controls) {
                let lo = if bit(i as usize, t) {
                    flip(i as usize, t)
                } else {
                    i as usize
                };
                lemma_flip_facts(lo, t, n);
                lemma_flip_keeps_controls(lo, t, controls);
            }
        }
    }
    assert(r =~= a);
}

/// The two tiers agree: two results that both meet the pair loop's
/// contract, with a transform that returns one value per input, are equal.
pub proof fn lemma_pair_backends_agree<A, P, F: Fn(P, A, A) -> (A, A)>(
    a: Seq<A>,
    n: usize,
    t: usize,
    controls: Seq<usize>,
    f: F,
    p: P,
    sequential: Seq<A>,
    parallel: Seq<A>,
)
    requires
        kernel_ready(a, n, t, controls),
        forall|x: A, y: A, u: (A, A), v: (A, A)|
            f.ensures((p, x, y), u) && f.ensures((p, x, y), v) ==> u == v,
        pairs_applied(a, sequential, t, controls, f, p),
        pairs_applied(a, parallel, t, controls, f, p),
    ensures
        sequential == parallel,
{
    assert forall|i: int| 0 <= i < a.len() implies #[trigger] sequential[i] == parallel[i] by {
        let iu = i as usize;
        lemma_flip_facts(iu, t, n);
        lemma_flip_keeps_controls(iu, t, controls);
        if controls_set(iu, controls) {
            let lo = if bit(iu, t) {
                flip(iu, t)
            } else {
                iu
            };
            lemma_flip_facts(lo, t, n);
            assert(f.ensures(
                (p, a[lo as int], a[flip(lo, t) as int]),
                (sequential[lo as int], sequential[flip(lo, t) as int]),
            ));
            assert(f.ensures(
                (p, a[lo as int], a[flip(lo, t) as int]),
                (parallel[lo as int], parallel[flip(lo, t) as int]),
            ));
        }
    }
    assert(sequential =~= parallel);
}

/// Inverse pairs: when the transform with `second` undoes the transform with
/// `first` on every pair, the pair loop with `first` and then with `second`
/// gives back the amplitudes it started from. With `first == second` this is
/// an involution (H, Y, Z); with `(S, S-dagger)`, `(T, T-dagger)` or opposite
/// angles it is an inverse pair.
pub proof fn lemma_pair_inverse<A, P, F: Fn(P, A, A) -> (A, A)>(
    a: Seq<A>,
    n: usize,
    t: usize,
    controls: Seq<usize>,
    f: F,
    first: P,
    second: P,
    once: Seq<A>,
    twice: Seq<A>,
)
    requires
        kernel_ready(a, n, t, controls),
        forall|x: A, y: A, u: (A, A), v: (A, A)|
            f.ensures((first, x, y), u) && f.ensures((second, u.0, u.1), v) ==> v == (x, y),
        pairs_applied(a, once, t, controls, f, first),
        pairs_applied(once, twice, t, controls, f, second),
    ensures
        twice == a,
{
    assert forall|i: int| 0 <= i < a.len() implies #[trigger] twice[i] == a[i] by {
        let iu = i as usize;
        lemma_flip_facts(iu, t, n);
        lemma_flip_keeps_controls(iu, t, controls);
        if controls_set(iu, controls) {
            let lo = if bit(iu, t) {
                flip(iu, t)
            } else {
                iu
            };
            lemma_flip_facts(lo, t, n);
            let hi = flip(lo, t);
            assert(f.ensures((first, a[lo as int], a[hi as int]), (once[lo as int], once[hi as int])));
            assert(f.ensures(
                (second, once[lo as int], once[hi as int]),
                (twice[lo as int], twice[hi as int]),
            ));
            let u = (once[lo as int], once[hi as int]);
            assert(f.ensures((second, u.0, u.1), (twice[lo as int], twice[hi as int])));
            assert((twice[lo as int], twice[hi as int]) == (a[lo as int], a[hi as int]));
        }
    }
    assert(twice =~= a);
}

/// A successful application of a single-target operator leaves the kernel
/// preconditions in force: the target is in range and is not a control.
pub proof fn lemma_accepted_single_target<T: Copy, M: Copy>(
    op: Operator<T, M>,
    n: usize,
    targets: Seq<usize>,
    controls: Seq<usize>,
)
    requires
        !(op is SWAP),
        op.apply_error(n, targets, controls) is None,
    ensures
        targets.len() == 1,
        targets[0] < n,
        crate::bits::all_below(controls, n),
        !controls.contains(targets[0]),
{
    lemma_validation_accepts(n, targets, controls, op.expected_targets());
    assert(!controls.contains(targets[0])) by {
        if controls.contains(targets[0]) {
            let k = choose|k: int| 0 <= k < controls.len() && controls[k] == targets[0];
            assert(targets.contains(controls[k]));
        }
    }
}

/// Involutions and inverse pairs at the level of `Operator::apply`: when
/// the caller's transform for `second` undoes its transform for `first` on
/// every pair, applying `first` and then `second` to the same qubits gives
/// back the state. This is H, Y and Z applied twice (`first == second`), and
/// S then S-dagger, T then T-dagger, and RX, RY, RZ or a phase shift by an
/// angle and then by its opposite; the transforms themselves are the
/// caller's arithmetic.
pub proof fn lemma_operator_inverse<T: Copy, M: Copy, A, F: Fn(Operator<T, M>, A, A) -> (A, A)>(
    first: Operator<T, M>,
    second: Operator<T, M>,
    n: usize,
    a: Seq<A>,
    targets: Seq<usize>,
    controls: Seq<usize>,
    act: F,
    once: Seq<A>,
    twice: Seq<A>,
)
    requires
        !first.is_flip() && !(first is SWAP) && !(first is Identity),
        !second.is_flip() && !(second is SWAP) && !(second is Identity),
        n <= MAX_QUBITS,
        a.len() == dim(n),
        first.apply_error(n, targets, controls) is None,
        first.applied(a, targets, controls, act, once),
        second.applied(once, targets, controls, act, twice),
        forall|x: A, y: A, u: (A, A), v: (A, A)|
            act.ensures((first, x, y), u) && act.ensures((second, u.0, u.1), v) ==> v == (x, y),
    ensures
        twice == a,
{
    lemma_accepted_single_target(first, n, targets, controls);
    lemma_pair_inverse(a, n, targets[0], controls, act, first, second, once, twice);
}

/// The execution tiers agree at the level of `Operator::apply`: the result
/// of `apply` and a result assembled from the work items (`pairs_applied`,
/// as `assemble_pairs` ensures) are equal when the caller's transform gives
/// one value per input.
pub proof fn lemma_operator_tiers_agree<T: Copy, M: Copy, A, F: Fn(Operator<T, M>, A, A) -> (A, A)>(
    op: Operator<T, M>,
    n: usize,
    a: Seq<A>,
    targets: Seq<usize>,
    controls: Seq<usize>,
    act: F,
    sequential: Seq<A>,
    parallel: Seq<A>,
)
    requires
        !op.is_flip() && !(op is SWAP) && !(op is Identity),
        n <= MAX_QUBITS,
        a.len() == dim(n),
        op.apply_error(n, targets, controls) is None,
        op.applied(a, targets, controls, act, sequential),
        pairs_applied(a, parallel, targets[0], controls, act, op),
        forall|x: A, y: A, u: (A, A), v: (A, A)|
            act.ensures((op, x, y), u) && act.ensures((op, x, y), v) ==> u == v,
    ensures
        sequential == parallel,
{
    lemma_accepted_single_target(op, n, targets, controls);
    lemma_pair_backends_agree(a, n, targets[0], controls, act, op, sequential, parallel);
}

/// After qubit `q` collapsed onto `outcome`, no amplitude of the other
/// outcome survives, so measuring `q` again can only give `outcome`: a
/// collapse onto the other outcome, with a renormalisation that keeps zero
/// at zero, leaves nothing but zeros.
pub proof fn lemma_repeat_measurement<A, S, F: Fn(S, A) -> A>(
    a: Seq<A>,
    r: Seq<A>,
    q: usize,
    outcome: bool,
    zero: A,
    factor: S,
    scale: F,
    other_factor: S,
    other: Seq<A>,
)
    requires
        collapsed(a, r, q, outcome, zero, factor, scale),
        collapsed(r, other, q, !outcome, zero, other_factor, scale),
        forall|x: A| scale.ensures((other_factor, zero), x) ==> x == zero,
    ensures
        forall|i: int| 0 <= i < r.len() && bit(i as usize, q) != outcome ==> #[trigger] r[i] == zero,
        forall|i: int| 0 <= i < other.len() ==> #[trigger] other[i] == zero,
{
    assert forall|i: int| 0 <= i < other.len() implies #[trigger] other[i] == zero by {
        if bit(i as usize, q) == !outcome {
            assert(r[i] == zero);
        }
    }
}

} // verus!
