//! Bit-level addressing of basis states.
//!
//! Basis index `i` encodes `|b_{N-1} ... b_0>` with `b_q = (i >> q) & 1`:
//! qubit 0 is the least-significant bit.
use vstd::prelude::*;

verus! {

/// Largest qubit count this library accepts: `2^N` amplitudes must be
/// addressable by `usize` on every target, 32-bit ones included.
pub const MAX_QUBITS: usize = 31;

/// Whether qubit `q` is set in basis index `i`.
pub open spec fn bit(i: usize, q: usize) -> bool {
    (i >> q) & 1 == 1
}

/// The basis index that differs from `i` in qubit `q` only.
pub open spec fn flip(i: usize, q: usize) -> usize {
    i ^ (1usize << q)
}

/// Number of amplitudes of an `n`-qubit state.
pub open spec fn dim(n: usize) -> int {
    (1usize << n) as int
}

/// Every control qubit is set in basis index `i`.
pub open spec fn controls_set(i: usize, controls: Seq<usize>) -> bool {
    forall|k: int| 0 <= k < controls.len() ==> #[trigger] bit(i, controls[k])
}

/// Every entry of `qs` names a qubit of an `n`-qubit register.
pub open spec fn all_below(qs: Seq<usize>, n: usize) -> bool {
    forall|k: int| 0 <= k < qs.len() ==> #[trigger] qs[k] < n
}

/// Flipping a qubit of an `n`-qubit index stays in range, undoes itself,
/// inverts that qubit, and moves up exactly when the qubit was clear.
pub proof fn lemma_flip_facts(i: usize, q: usize, n: usize)
    requires
        q < n,
        n <= MAX_QUBITS,
        i < (1usize << n),
    ensures
        flip(i, q) < (1usize << n),
        flip(flip(i, q), q) == i,
        bit(flip(i, q), q) == !bit(i, q),
        !bit(i, q) ==> i < flip(i, q) && flip(i, q) == (i | (1usize << q)),
        bit(i, q) ==> flip(i, q) < i,
{
    assert(q < n && n <= 31 && i < (1usize << n) ==> (i ^ (1usize << q)) < (1usize << n))
        by (bit_vector);
    assert(q < 31 ==> ((i ^ (1usize << q)) ^ (1usize << q)) == i) by (bit_vector);
    assert(q < 31 ==> ((((i ^ (1usize << q)) >> q) & 1 == 1) == !((i >> q) & 1 == 1)))
        by (bit_vector);
    assert(q < 31 && !((i >> q) & 1 == 1) ==> i < (i ^ (1usize << q)) && (i ^ (1usize << q)) == (
    i | (1usize << q))) by (bit_vector);
    assert(q < 31 && ((i >> q) & 1 == 1) ==> (i ^ (1usize << q)) < i) by (bit_vector);
}

/// Flipping qubit `q` leaves every other qubit as it was.
pub proof fn lemma_flip_other_bit(i: usize, q: usize, c: usize)
    requires
        q < 32,
        c < 32,
        q != c,
    ensures
        bit(flip(i, q), c) == bit(i, c),
{
    assert(q < 32 && c < 32 && q != c ==> (((i ^ (1usize << q)) >> c) & 1 == 1) == ((i >> c) & 1
        == 1)) by (bit_vector);
}

/// Flipping a qubit that is not a control keeps the control predicate.
pub proof fn lemma_flip_keeps_controls(i: usize, q: usize, controls: Seq<usize>)
    requires
        q < 32,
        all_below(controls, 32),
        !controls.contains(q),
    ensures
        controls_set(flip(i, q), controls) == controls_set(i, controls),
{
    assert forall|k: int| 0 <= k < controls.len() implies bit(flip(i, q), controls[k]) == bit(
        i,
        controls[k],
    ) by {
        assert(controls[k] != q);
        lemma_flip_other_bit(i, q, controls[k]);
    }
}

/// The dimension `2^n` is positive and doubles with each qubit.
pub proof fn lemma_dim_positive(n: usize)
    requires
        n <= MAX_QUBITS,
    ensures
        0 < (1usize << n),
        n > 0 ==> (1usize << n) == 2 * (1usize << ((n - 1) as usize)),
{
    assert(n <= 31 ==> 0 < (1usize << n)) by (bit_vector);
    assert(0 < n && n <= 31 ==> (1usize << n) == 2 * (1usize << ((n - 1) as usize)))
        by (bit_vector);
}

/// Whether every control qubit is set in basis index `index`.
pub fn check_controls(index: usize, control_qubits: &Vec<usize>) -> (r: bool)
    requires
        all_below(control_qubits@, 32),
    ensures
        r == controls_set(index, control_qubits@),
{
    let mut k: usize = 0;
    while k < control_qubits.len()
        invariant
            k <= control_qubits.len(),
            all_below(control_qubits@, 32),
            forall|m: int| 0 <= m < k ==> #[trigger] bit(index, control_qubits@[m]),
        decreases control_qubits.len() - k,
    {
        let qubit = control_qubits[k];
        if (index >> qubit) & 1 != 1 {
            assert(!bit(index, control_qubits@[k as int]));
            return false;
        }
        k += 1;
    }
    true
}

} // verus!
