//! A pure state of `N` qubits as its vector of `2^N` amplitudes.
//!
//! The amplitude type is a parameter: the library fixes where each amplitude
//! goes, the caller's numeric type fixes what the arithmetic on it is.
use vstd::prelude::*;
use crate::bits::{bit, dim, lemma_dim_positive, MAX_QUBITS};
use crate::errors::Error;
use crate::kernels::copy_vec;

verus! {

/// An amplitude vector over `num_qubits` qubits; index `i` is the basis state
/// whose qubit `q` is `(i >> q) & 1`.
pub struct State<A> {
    /// The `2^num_qubits` amplitudes.
    pub state_vector: Vec<A>,
    /// The number of qubits.
    pub num_qubits: usize,
}

/// The amplitudes of basis state `index` among `len` entries.
pub open spec fn basis_amplitudes<A>(len: int, index: int, zero: A, one: A) -> Seq<A> {
    Seq::new(len as nat, |i: int| if i == index { one } else { zero })
}

/// `r` is `a` after qubit `q` was found to be `outcome`: amplitudes of that
/// outcome hold what `scale` may return on them with `factor`, the others `zero`.
pub open spec fn collapsed<A, S, F: Fn(S, A) -> A>(
    a: Seq<A>,
    r: Seq<A>,
    q: usize,
    outcome: bool,
    zero: A,
    factor: S,
    scale: F,
) -> bool {
    &&& r.len() == a.len()
    &&& forall|i: int|
        #![trigger r[i]]
        0 <= i < a.len() ==> if bit(i as usize, q) == outcome {
            scale.ensures((factor, a[i]), r[i])
        } else {
            r[i] == zero
        }
}

impl<A: Copy> State<A> {
    /// The amplitude vector has `2^num_qubits` entries, within the supported size.
    pub open spec fn wf(&self) -> bool {
        &&& self.num_qubits <= MAX_QUBITS
        &&& self.state_vector@.len() == dim(self.num_qubits)
    }

    /// The basis state `|index>` of `num_qubits` qubits, written with the
    /// caller's `zero` and `one`.
    pub fn basis(num_qubits: usize, index: usize, zero: A, one: A) -> (r: Self)
        requires
            num_qubits <= MAX_QUBITS,
            index < dim(num_qubits),
        ensures
            r.wf(),
            r.num_qubits == num_qubits,
            r.state_vector@ == basis_amplitudes(dim(num_qubits), index as int, zero, one),
    {
        let d: usize = 1usize << num_qubits;
        let mut v: Vec<A> = Vec::new();
        let mut i: usize = 0;
        while i < d
            invariant
                d as int == dim(num_qubits),
                i <= d,
                v@ =~= basis_amplitudes(dim(num_qubits), index as int, zero, one).take(i as int),
            decreases d - i,
        {
            v.push(if i == index { one } else { zero });
            i += 1;
        }
        assert(basis_amplitudes(dim(num_qubits), index as int, zero, one).take(d as int)
            =~= basis_amplitudes(dim(num_qubits), index as int, zero, one));
        State { state_vector: v, num_qubits }
    }

    /// The state `|0...0>` of `num_qubits` qubits.
    pub fn zero(num_qubits: usize, zero: A, one: A) -> (r: Self)
        requires
            num_qubits <= MAX_QUBITS,
        ensures
            r.wf(),
            r.num_qubits == num_qubits,
            r.state_vector@ == basis_amplitudes(dim(num_qubits), 0, zero, one),
    {
        proof {
            lemma_dim_positive(num_qubits);
        }
        Self::basis(num_qubits, 0, zero, one)
    }

    /// Wraps an amplitude vector whose length is a power of two. Its
    /// normalisation is the caller's to check: the amplitude type is opaque here.
    pub fn from_amplitudes(state_vector: Vec<A>) -> (r: Result<Self, Error>)
        ensures
            qualifies_length(state_vector@.len() as int) ==> r is Ok && r->Ok_0.wf()
                && r->Ok_0.state_vector@ == state_vector@,
            !qualifies_length(state_vector@.len() as int) ==> r == Err::<Self, Error>(
                Error::InvalidNumberOfQubits(state_vector@.len() as usize),
            ),
    {
        let len = state_vector.len();
        let mut n: usize = 0;
        while n <= MAX_QUBITS
            invariant
                n <= MAX_QUBITS + 1,
                len == state_vector@.len(),
                forall|m: usize| m < n ==> #[trigger] dim(m) != len,
            decreases MAX_QUBITS + 1 - n,
        {
            if (1usize << n) == len {
                return Ok(State { state_vector, num_qubits: n });
            }
            n += 1;
        }
        Err(Error::InvalidNumberOfQubits(len))
    }

    /// The number of qubits.
    pub fn num_qubits(&self) -> (r: usize)
        ensures
            r == self.num_qubits,
    {
        self.num_qubits
    }

    /// The number of amplitudes, `2^num_qubits`.
    pub fn dim(&self) -> (r: usize)
        requires
            self.wf(),
        ensures
            r as int == dim(self.num_qubits),
    {
        self.state_vector.len()
    }

    /// The amplitude of basis state `index`.
    pub fn amplitude(&self, index: usize) -> (r: A)
        requires
            self.wf(),
            index < dim(self.num_qubits),
        ensures
            r == self.state_vector@[index as int],
    {
        self.state_vector[index]
    }

    /// A copy of this state.
    pub fn copy(&self) -> (r: Self)
        ensures
            r.num_qubits == self.num_qubits,
            r.state_vector@ == self.state_vector@,
    {
        State { state_vector: copy_vec(&self.state_vector), num_qubits: self.num_qubits }
    }

    /// The state after qubit `qubit` was found to be `outcome`: amplitudes
    /// that agree with the outcome are passed through `scale` with `factor`
    /// (the renormalisation), the others become `zero`.
    pub fn collapse<S: Copy, F: Fn(S, A) -> A>(
        &self,
        qubit: usize,
        outcome: bool,
        zero: A,
        factor: S,
        scale: &F,
    ) -> (r: Self)
        requires
            self.wf(),
            qubit < self.num_qubits,
            forall|a: A| scale.requires((factor, a)),
        ensures
            r.wf(),
            r.num_qubits == self.num_qubits,
            collapsed(self.state_vector@, r.state_vector@, qubit, outcome, zero, factor, *scale),
    {
        let mut v: Vec<A> = Vec::new();
        let mut i: usize = 0;
        while i < self.state_vector.len()
            invariant
                self.wf(),
                qubit < self.num_qubits,
                forall|a: A| scale.requires((factor, a)),
                i <= self.state_vector@.len(),
                v@.len() == i,
                forall|k: int|
                    #![trigger v@[k]]
                    0 <= k < i ==> if bit(k as usize, qubit) == outcome {
                        scale.ensures((factor, self.state_vector@[k]), v@[k])
                    } else {
                        v@[k] == zero
                    },
            decreases self.state_vector@.len() - i,
        {
            let keep = (i >> qubit) & 1 == 1;
            if keep == outcome {
                let x = scale(factor, self.state_vector[i]);
                v.push(x);
            } else {
                v.push(zero);
            }
            i += 1;
        }
        State { state_vector: v, num_qubits: self.num_qubits }
    }
}

/// `len` is `2^n` for a supported qubit count `n`.
pub open spec fn qualifies_length(len: int) -> bool {
    exists|n: usize| n <= MAX_QUBITS && dim(n) == len
}

} // verus!
