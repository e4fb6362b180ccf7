//! The index structure of every gate: the three shapes of update that the
//! operators share, over any amplitude type.
//!
//! - the bit flip: `new[i] = old[i ^ (1 << t)]` where the controls are set;
//! - the SWAP exchange: `new[i] = old[i ^ (1 << t1) ^ (1 << t2)]` where the
//!   two targets differ and the controls are set;
//! - the pair loop: each pair `(i, i | (1 << t))` whose controls are set is
//!   replaced by what a 2x2 transform makes of it.
use vstd::prelude::*;
use crate::bits::{
    all_below, bit, check_controls, controls_set, dim, flip, lemma_flip_facts,
    lemma_flip_keeps_controls, MAX_QUBITS,
};

verus! {

/// The amplitudes after a controlled bit flip of qubit `t`.
pub open spec fn flipped<A>(a: Seq<A>, t: usize, controls: Seq<usize>) -> Seq<A> {
    Seq::new(
        a.len(),
        |i: int|
            if controls_set(i as usize, controls) {
                a[flip(i as usize, t) as int]
            } else {
                a[i]
            },
    )
}

/// The basis index that a SWAP of qubits `t1` and `t2` exchanges with `i`.
pub open spec fn swap_partner(i: usize, t1: usize, t2: usize) -> usize {
    flip(flip(i, t1), t2)
}

/// The amplitudes after a controlled exchange of qubits `t1` and `t2`.
pub open spec fn swapped<A>(a: Seq<A>, t1: usize, t2: usize, controls: Seq<usize>) -> Seq<A> {
    Seq::new(
        a.len(),
        |i: int|
            if controls_set(i as usize, controls) && bit(i as usize, t1) != bit(i as usize, t2) {
                a[swap_partner(i as usize, t1, t2) as int]
            } else {
                a[i]
            },
    )
}

/// `r` is `a` after the pair loop on qubit `t`: each pair whose controls
/// are set holds what `f` may return on it (with the operator parameter `p`),
/// every other entry is unchanged.
pub open spec fn pairs_applied<A, P, F: Fn(P, A, A) -> (A, A)>(
    a: Seq<A>,
    r: Seq<A>,
    t: usize,
    controls: Seq<usize>,
    f: F,
    p: P,
) -> bool {
    &&& r.len() == a.len()
    &&& forall|i: int|
        #![trigger r[i]]
        0 <= i < a.len() && !bit(i as usize, t) && controls_set(i as usize, controls)
            ==> f.ensures(
            (p, a[i], a[flip(i as usize, t) as int]),
            (r[i], r[flip(i as usize, t) as int]),
        )
    &&& forall|i: int|
        #![trigger r[i]]
        0 <= i < a.len() && !controls_set(i as usize, controls) ==> r[i] == a[i]
}

/// The conditions under which a kernel on target `t` may run on `amps`.
pub open spec fn kernel_ready<A>(amps: Seq<A>, n: usize, t: usize, controls: Seq<usize>) -> bool {
    &&& n <= MAX_QUBITS
    &&& amps.len() == dim(n)
    &&& t < n
    &&& all_below(controls, n)
    &&& !controls.contains(t)
}

/// Flipping twice is the identity, and flipping stays in range.
pub proof fn lemma_flip_all(n: usize, t: usize)
    requires
        t < n,
        n <= MAX_QUBITS,
    ensures
        forall|i: usize|
            i < (1usize << n) ==> #[trigger] flip(i, t) < (1usize << n) && flip(flip(i, t), t) == i
                && bit(flip(i, t), t) == !bit(i, t),
{
    assert forall|i: usize| i < (1usize << n) implies #[trigger] flip(i, t) < (1usize << n) && flip(
        flip(i, t),
        t,
    ) == i && bit(flip(i, t), t) == !bit(i, t) by {
        lemma_flip_facts(i, t, n);
    }
}

/// An element-wise copy of a vector.
pub fn copy_vec<A: Copy>(amps: &Vec<A>) -> (r: Vec<A>)
    ensures
        r@ == amps@,
{
    let mut out: Vec<A> = Vec::new();
    let mut i: usize = 0;
    while i < amps.len()
        invariant
            i <= amps.len(),
            out@ =~= amps@.take(i as int),
        decreases amps.len() - i,
    {
        out.push(amps[i]);
        i += 1;
    }
    assert(amps@.take(i as int) =~= amps@);
    out
}

/// Applies a bit flip of qubit `target_qubit` under `control_qubits`.
pub fn flip_kernel<A: Copy>(
    amps: &Vec<A>,
    num_qubits: usize,
    target_qubit: usize,
    control_qubits: &Vec<usize>,
) -> (r: Vec<A>)
    requires
        kernel_ready(amps@, num_qubits, target_qubit, control_qubits@),
    ensures
        r@ == flipped(amps@, target_qubit, control_qubits@),
{
    let d: usize = 1usize << num_qubits;
    let mut out: Vec<A> = Vec::new();
    let mut i: usize = 0;
    while i < d
        invariant
            kernel_ready(amps@, num_qubits, target_qubit, control_qubits@),
            d as int == amps@.len(),
            i <= d,
            out@ =~= flipped(amps@, target_qubit, control_qubits@).take(i as int),
        decreases d - i,
    {
        proof {
            lemma_flip_facts(i, target_qubit, num_qubits);
        }
        let v = if check_controls(i, control_qubits) {
            amps[i ^ (1usize << target_qubit)]
        } else {
            amps[i]
        };
        out.push(v);
        i += 1;
    }
    assert(flipped(amps@, target_qubit, control_qubits@).take(d as int) =~= flipped(
        amps@,
        target_qubit,
        control_qubits@,
    ));
    out
}

/// Exchanges qubits `target_qubit_1` and `target_qubit_2` under `control_qubits`.
pub fn swap_kernel<A: Copy>(
    amps: &Vec<A>,
    num_qubits: usize,
    target_qubit_1: usize,
    target_qubit_2: usize,
    control_qubits: &Vec<usize>,
) -> (r: Vec<A>)
    requires
        kernel_ready(amps@, num_qubits, target_qubit_1, control_qubits@),
        target_qubit_2 < num_qubits,
    ensures
        r@ == swapped(amps@, target_qubit_1, target_qubit_2, control_qubits@),
{
    let d: usize = 1usize << num_qubits;
    let mut out: Vec<A> = Vec::new();
    let mut i: usize = 0;
    while i < d
        invariant
            kernel_ready(amps@, num_qubits, target_qubit_1, control_qubits@),
            target_qubit_2 < num_qubits,
            d as int == amps@.len(),
            i <= d,
            out@ =~= swapped(amps@, target_qubit_1, target_qubit_2, control_qubits@).take(i as int),
        decreases d - i,
    {
        proof {
            lemma_flip_facts(i, target_qubit_1, num_qubits);
            lemma_flip_facts(flip(i, target_qubit_1), target_qubit_2, num_qubits);
        }
        let bit_1 = (i >> target_qubit_1) & 1;
        let bit_2 = (i >> target_qubit_2) & 1;
        let v = if bit_1 != bit_2 && check_controls(i, control_qubits) {
            amps[(i ^ (1usize << target_qubit_1)) ^ (1usize << target_qubit_2)]
        } else {
            amps[i]
        };
        proof {
            assert((bit_1 != bit_2) == (bit(i, target_qubit_1) != bit(i, target_qubit_2))) by (bit_vector)
                requires
                    bit_1 == (i >> target_qubit_1) & 1,
                    bit_2 == (i >> target_qubit_2) & 1,
            ;
        }
        out.push(v);
        i += 1;
    }
    assert(swapped(amps@, target_qubit_1, target_qubit_2, control_qubits@).take(d as int)
        =~= swapped(amps@, target_qubit_1, target_qubit_2, control_qubits@));
    out
}

/// Runs the pair loop on qubit `target_qubit`: every pair `(i, i | (1 << t))`
/// whose controls are set is replaced by `f(p, old[i], old[i | (1 << t)])`.
pub fn pair_kernel<A: Copy, P: Copy, F: Fn(P, A, A) -> (A, A)>(
    amps: &Vec<A>,
    num_qubits: usize,
    target_qubit: usize,
    control_qubits: &Vec<usize>,
    f: &F,
    p: P,
) -> (r: Vec<A>)
    requires
        kernel_ready(amps@, num_qubits, target_qubit, control_qubits@),
        forall|a0: A, a1: A| f.requires((p, a0, a1)),
    ensures
        pairs_applied(amps@, r@, target_qubit, control_qubits@, *f, p),
{
    let d: usize = 1usize << num_qubits;
    let mut out: Vec<A> = copy_vec(amps);
    let ghost a = amps@;
    let ghost t = target_qubit;
    let ghost cs = control_qubits@;
    proof {
        lemma_flip_all(num_qubits, target_qubit);
    }
    let mut i: usize = 0;
    while i < d
        invariant
            kernel_ready(amps@, num_qubits, target_qubit, control_qubits@),
            forall|a0: A, a1: A| f.requires((p, a0, a1)),
            a == amps@,
            t == target_qubit,
            cs == control_qubits@,
            d as int == a.len(),
            i <= d,
            out@.len() == a.len(),
            forall|k: usize|
                k < (1usize << num_qubits) ==> #[trigger] flip(k, t) < (1usize << num_qubits)
                    && flip(flip(k, t), t) == k && bit(flip(k, t), t) == !bit(k, t),
            forall|k: int|
                #![trigger out@[k]]
                0 <= k < i && !bit(k as usize, t) && controls_set(k as usize, cs) ==> f.ensures(
                    (p, a[k], a[flip(k as usize, t) as int]),
                    (out@[k], out@[flip(k as usize, t) as int]),
                ),
            forall|k: int|
                #![trigger out@[k]]
                0 <= k < a.len() && !controls_set(k as usize, cs) ==> out@[k] == a[k],
            forall|k: int|
                #![trigger out@[k]]
                i <= k < a.len() && !bit(k as usize, t) ==> out@[k] == a[k],
            forall|k: int|
                #![trigger out@[k]]
                0 <= k < a.len() && bit(k as usize, t) && i <= flip(k as usize, t) ==> out@[k]
                    == a[k],
        decreases d - i,
    {
        proof {
            lemma_flip_facts(i, target_qubit, num_qubits);
            lemma_flip_keeps_controls(i, target_qubit, control_qubits@);
        }
        let ghost before = out@;
        if (i >> target_qubit) & 1 != 1 && check_controls(i, control_qubits) {
            let j: usize = i | (1usize << target_qubit);
            let (b0, b1) = f(p, amps[i], amps[j]);
            let ghost prev = out@;
            out.set(i, b0);
            out.set(j, b1);
            assert(j == flip(i, t));
            assert forall|k: int|
                #![trigger out@[k]]
                0 <= k <= i && !bit(k as usize, t) && controls_set(k as usize, cs) implies f.ensures(
                    (p, a[k], a[flip(k as usize, t) as int]),
                    (out@[k], out@[flip(k as usize, t) as int]),
                ) by {
                if k < i {
                    let fk = flip(k as usize, t);
                    assert(bit(fk, t));
                    assert(fk != j);
                    assert(out@[k] == prev[k]);
                    assert(out@[fk as int] == prev[fk as int]);
                    assert(f.ensures((p, a[k], a[fk as int]), (prev[k], prev[fk as int])));
                }
            }
            assert forall|k: int|
                #![trigger out@[k]]
                0 <= k < a.len() && bit(k as usize, t) && i < flip(k as usize, t) implies out@[k]
                    == a[k] by {
                assert(k as usize != j);
                assert(out@[k] == prev[k]);
            }
        } else {
            assert(out@ == before);
        }
        i += 1;
    }
    out
}

/// The work item of the pair loop at basis index `index`: the new values of
/// the pair `(index, index | (1 << t))` if `index` opens a pair whose
/// controls are set, `None` otherwise.
pub fn pair_entry<A: Copy, P: Copy, F: Fn(P, A, A) -> (A, A)>(
    amps: &Vec<A>,
    num_qubits: usize,
    target_qubit: usize,
    control_qubits: &Vec<usize>,
    f: &F,
    p: P,
    index: usize,
) -> (r: Option<(A, A)>)
    requires
        kernel_ready(amps@, num_qubits, target_qubit, control_qubits@),
        forall|a0: A, a1: A| f.requires((p, a0, a1)),
        index < amps@.len(),
    ensures
        r is Some <==> !bit(index, target_qubit) && controls_set(index, control_qubits@),
        r is Some ==> f.ensures(
            (p, amps@[index as int], amps@[flip(index, target_qubit) as int]),
            r->Some_0,
        ),
{
    proof {
        lemma_flip_facts(index, target_qubit, num_qubits);
    }
    if (index >> target_qubit) & 1 != 1 && check_controls(index, control_qubits) {
        let j: usize = index | (1usize << target_qubit);
        Some(f(p, amps[index], amps[j]))
    } else {
        None
    }
}

/// The pair loop's result assembled from its work items, one per basis
/// index, computed in any order.
pub fn assemble_pairs<A: Copy, P: Copy, F: Fn(P, A, A) -> (A, A)>(
    amps: &Vec<A>,
    num_qubits: usize,
    target_qubit: usize,
    control_qubits: &Vec<usize>,
    items: &Vec<Option<(A, A)>>,
    f: &F,
    p: P,
) -> (r: Vec<A>)
    requires
        kernel_ready(amps@, num_qubits, target_qubit, control_qubits@),
        items@.len() == amps@.len(),
        forall|i: int|
            #![trigger items@[i]]
            0 <= i < amps@.len() ==> (items@[i] is Some <==> !bit(i as usize, target_qubit)
                && controls_set(i as usize, control_qubits@)),
        forall|i: int|
            #![trigger items@[i]]
            0 <= i < amps@.len() && items@[i] is Some ==> f.ensures(
                (p, amps@[i], amps@[flip(i as usize, target_qubit) as int]),
                items@[i]->Some_0,
            ),
    ensures
        pairs_applied(amps@, r@, target_qubit, control_qubits@, *f, p),
{
    let d: usize = 1usize << num_qubits;
    let mut out: Vec<A> = Vec::new();
    let ghost t = target_qubit;
    let ghost cs = control_qubits@;
    proof {
        lemma_flip_all(num_qubits, target_qubit);
    }
    let mut i: usize = 0;
    while i < d
        invariant
            kernel_ready(amps@, num_qubits, target_qubit, control_qubits@),
            t == target_qubit,
            cs == control_qubits@,
            d as int == amps@.len(),
            items@.len() == amps@.len(),
            i <= d,
            out@.len() == i,
            forall|k: usize|
                k < (1usize << num_qubits) ==> #[trigger] flip(k, t) < (1usize << num_qubits)
                    && flip(flip(k, t), t) == k && bit(flip(k, t), t) == !bit(k, t),
            forall|k: int|
                #![trigger out@[k]]
                0 <= k < i ==> out@[k] == match items@[if bit(k as usize, t) {
                    flip(k as usize, t) as int
                } else {
                    k
                }] {
                    Some(pair) => if bit(k as usize, t) {
                        pair.1
                    } else {
                        pair.0
                    },
                    None => amps@[k],
                },
        decreases d - i,
    {
        proof {
            lemma_flip_facts(i, target_qubit, num_qubits);
        }
        let opener: usize = if (i >> target_qubit) & 1 == 1 {
            i ^ (1usize << target_qubit)
        } else {
            i
        };
        let v = match items[opener] {
            Some(pair) => if (i >> target_qubit) & 1 == 1 {
                pair.1
            } else {
                pair.0
            },
            None => amps[i],
        };
        out.push(v);
        i += 1;
    }
    assert forall|k: int|
        #![trigger out@[k]]
        0 <= k < amps@.len() && !controls_set(k as usize, cs) implies out@[k] == amps@[k] by {
        if bit(k as usize, t) {
            lemma_flip_keeps_controls(k as usize, t, cs);
            assert(items@[flip(k as usize, t) as int] is None);
        }
    }
    assert forall|k: int|
        #![trigger out@[k]]
        0 <= k < amps@.len() && !bit(k as usize, t) && controls_set(k as usize, cs) implies f.ensures(
        (p, amps@[k], amps@[flip(k as usize, t) as int]),
        (out@[k], out@[flip(k as usize, t) as int]),
    ) by {
        let fk = flip(k as usize, t);
        assert(out@[fk as int] == items@[k]->Some_0.1);
    }
    out
}

/// Entry `index` of the controlled bit flip of qubit `target_qubit`.
pub fn flip_entry<A: Copy>(
    amps: &Vec<A>,
    num_qubits: usize,
    target_qubit: usize,
    control_qubits: &Vec<usize>,
    index: usize,
) -> (r: A)
    requires
        kernel_ready(amps@, num_qubits, target_qubit, control_qubits@),
        index < amps@.len(),
    ensures
        r == flipped(amps@, target_qubit, control_qubits@)[index as int],
{
    proof {
        lemma_flip_facts(index, target_qubit, num_qubits);
    }
    if check_controls(index, control_qubits) {
        amps[index ^ (1usize << target_qubit)]
    } else {
        amps[index]
    }
}

/// Entry `index` of the controlled exchange of qubits `target_qubit_1` and
/// `target_qubit_2`.
pub fn swap_entry<A: Copy>(
    amps: &Vec<A>,
    num_qubits: usize,
    target_qubit_1: usize,
    target_qubit_2: usize,
    control_qubits: &Vec<usize>,
    index: usize,
) -> (r: A)
    requires
        kernel_ready(amps@, num_qubits, target_qubit_1, control_qubits@),
        target_qubit_2 < num_qubits,
        index < amps@.len(),
    ensures
        r == swapped(amps@, target_qubit_1, target_qubit_2, control_qubits@)[index as int],
{
    proof {
        lemma_flip_facts(index, target_qubit_1, num_qubits);
        lemma_flip_facts(flip(index, target_qubit_1), target_qubit_2, num_qubits);
    }
    let bit_1 = (index >> target_qubit_1) & 1;
    let bit_2 = (index >> target_qubit_2) & 1;
    proof {
        assert((bit_1 != bit_2) == (bit(index, target_qubit_1) != bit(index, target_qubit_2)))
            by (bit_vector)
            requires
                bit_1 == (index >> target_qubit_1) & 1,
                bit_2 == (index >> target_qubit_2) & 1,
        ;
    }
    if bit_1 != bit_2 && check_controls(index, control_qubits) {
        amps[(index ^ (1usize << target_qubit_1)) ^ (1usize << target_qubit_2)]
    } else {
        amps[index]
    }
}

} // verus!
