//! The shared pre-check of target and control qubits.
use vstd::prelude::*;
use crate::bits::all_below;
use crate::errors::Error;

verus! {

/// The first entry of `qs` that is not below `n`, scanning from the front.
pub open spec fn first_out_of_range(qs: Seq<usize>, n: usize) -> Option<usize>
    decreases qs.len(),
{
    if qs.len() == 0 {
        None
    } else if qs[0] >= n {
        Some(qs[0])
    } else {
        first_out_of_range(qs.drop_first(), n)
    }
}

/// The first control, in order, that is out of range or is also a target,
/// with the error it causes.
pub open spec fn first_bad_control(controls: Seq<usize>, targets: Seq<usize>, n: usize) -> Option<
    Error,
>
    decreases controls.len(),
{
    if controls.len() == 0 {
        None
    } else if controls[0] >= n {
        Some(Error::InvalidQubitIndex(controls[0], n))
    } else if targets.contains(controls[0]) {
        Some(Error::OverlappingControlAndTargetQubits(controls[0], controls[0]))
    } else {
        first_bad_control(controls.drop_first(), targets, n)
    }
}

/// The first entry of `qs` that occurs again later in `qs`.
pub open spec fn first_repeated(qs: Seq<usize>) -> Option<usize>
    decreases qs.len(),
{
    if qs.len() == 0 {
        None
    } else if qs.drop_first().contains(qs[0]) {
        Some(qs[0])
    } else {
        first_repeated(qs.drop_first())
    }
}

/// What the validator reports for an `n`-qubit state, checks taken in order:
/// target count, target range, each control (range, then overlap with the
/// targets), and, for operators of several targets, repeated targets.
pub open spec fn validation_error(
    n: usize,
    targets: Seq<usize>,
    controls: Seq<usize>,
    expected_targets: usize,
) -> Option<Error> {
    if targets.len() != expected_targets {
        Some(Error::InvalidNumberOfQubits(targets.len() as usize))
    } else if first_out_of_range(targets, n) is Some {
        Some(Error::InvalidQubitIndex(first_out_of_range(targets, n)->Some_0, n))
    } else if first_bad_control(controls, targets, n) is Some {
        first_bad_control(controls, targets, n)
    } else if expected_targets > 1 && first_repeated(targets) is Some {
        Some(Error::InvalidQubitIndex(first_repeated(targets)->Some_0, n))
    } else {
        None
    }
}

/// The qubit lists are well formed for an `n`-qubit state: all in range, no
/// control among the targets, no repeated target.
pub open spec fn qubits_valid(n: usize, targets: Seq<usize>, controls: Seq<usize>) -> bool {
    &&& all_below(targets, n)
    &&& all_below(controls, n)
    &&& forall|k: int| 0 <= k < controls.len() ==> !targets.contains(#[trigger] controls[k])
    &&& forall|a: int, b: int|
        0 <= a < b < targets.len() ==> #[trigger] targets[a] != #[trigger] targets[b]
}

/// No entry is out of range exactly when all entries are below `n`.
pub proof fn lemma_first_out_of_range(qs: Seq<usize>, n: usize)
    ensures
        first_out_of_range(qs, n) is None <==> all_below(qs, n),
        first_out_of_range(qs, n) is Some ==> first_out_of_range(qs, n)->Some_0 >= n,
    decreases qs.len(),
{
    if qs.len() > 0 {
        lemma_first_out_of_range(qs.drop_first(), n);
        if qs[0] < n && all_below(qs.drop_first(), n) {
            assert forall|k: int| 0 <= k < qs.len() implies #[trigger] qs[k] < n by {
                if k > 0 {
                    assert(qs[k] == qs.drop_first()[k - 1]);
                }
            }
        }
        if all_below(qs, n) {
            assert(qs[0] < n);
            assert forall|k: int| 0 <= k < qs.len() - 1 implies #[trigger] qs.drop_first()[k]
                < n by {
                assert(qs.drop_first()[k] == qs[k + 1]);
            }
        }
    }
}

/// No control is at fault exactly when all are in range and none is a target.
pub proof fn lemma_first_bad_control(controls: Seq<usize>, targets: Seq<usize>, n: usize)
    ensures
        first_bad_control(controls, targets, n) is None <==> (all_below(controls, n) && forall|
            k: int,
        | 0 <= k < controls.len() ==> !targets.contains(#[trigger] controls[k])),
    decreases controls.len(),
{
    if controls.len() > 0 {
        let rest = controls.drop_first();
        lemma_first_bad_control(rest, targets, n);
        assert forall|k: int| 0 <= k < rest.len() implies #[trigger] rest[k] == controls[k + 1] by {}
        if first_bad_control(controls, targets, n) is None {
            assert forall|k: int| 0 <= k < controls.len() implies #[trigger] controls[k] < n
                && !targets.contains(controls[k]) by {
                if k > 0 {
                    assert(controls[k] == rest[k - 1]);
                }
            }
        }
        if all_below(controls, n) && forall|k: int|
            0 <= k < controls.len() ==> !targets.contains(#[trigger] controls[k]) {
            assert(controls[0] < n);
            assert(!targets.contains(controls[0]));
            assert forall|k: int| 0 <= k < rest.len() implies #[trigger] rest[k] < n
                && !targets.contains(rest[k]) by {
                assert(rest[k] == controls[k + 1]);
            }
        }
    }
}

/// No entry repeats exactly when all entries are distinct.
pub proof fn lemma_first_repeated(qs: Seq<usize>)
    ensures
        first_repeated(qs) is None <==> forall|a: int, b: int|
            0 <= a < b < qs.len() ==> #[trigger] qs[a] != #[trigger] qs[b],
    decreases qs.len(),
{
    if qs.len() > 0 {
        let rest = qs.drop_first();
        lemma_first_repeated(rest);
        if first_repeated(qs) is None {
            assert(!rest.contains(qs[0]));
            assert forall|a: int, b: int| 0 <= a < b < qs.len() implies #[trigger] qs[a]
                != #[trigger] qs[b] by {
                if a == 0 {
                    assert(qs[b] == rest[b - 1]);
                } else {
                    assert(qs[a] == rest[a - 1]);
                    assert(qs[b] == rest[b - 1]);
                }
            }
        }
        if forall|a: int, b: int| 0 <= a < b < qs.len() ==> #[trigger] qs[a] != #[trigger] qs[b] {
            assert forall|a: int, b: int| 0 <= a < b < rest.len() implies #[trigger] rest[a]
                != #[trigger] rest[b] by {
                assert(rest[a] == qs[a + 1]);
                assert(rest[b] == qs[b + 1]);
            }
            if rest.contains(qs[0]) {
                let b = choose|b: int| 0 <= b < rest.len() && rest[b] == qs[0];
                assert(qs[b + 1] == qs[0]);
            }
        }
    }
}

/// The validator accepts exactly the well-formed qubit lists of the right length.
pub proof fn lemma_validation_accepts(
    n: usize,
    targets: Seq<usize>,
    controls: Seq<usize>,
    expected_targets: usize,
)
    requires
        expected_targets == 1 ==> targets.len() <= 1,
    ensures
        validation_error(n, targets, controls, expected_targets) is None <==> (targets.len()
            == expected_targets && qubits_valid(n, targets, controls)),
{
    lemma_first_out_of_range(targets, n);
    lemma_first_bad_control(controls, targets, n);
    lemma_first_repeated(targets);
}

/// Checks the targets and controls of an operator application on an
/// `num_qubits`-qubit state that expects `expected_targets` targets.
pub fn validate_qubits(
    num_qubits: usize,
    target_qubits: &Vec<usize>,
    control_qubits: &Vec<usize>,
    expected_targets: usize,
) -> (r: Result<(), Error>)
    ensures
        r is Ok <==> validation_error(num_qubits, target_qubits@, control_qubits@, expected_targets) is None,
        r is Err ==> r->Err_0 == validation_error(num_qubits, target_qubits@, control_qubits@, expected_targets)->Some_0,
{
    let ts = Ghost(target_qubits@);
    let cs = Ghost(control_qubits@);
    if target_qubits.len() != expected_targets {
        return Err(Error::InvalidNumberOfQubits(target_qubits.len()));
    }
    assert(ts@.subrange(0, ts@.len() as int) =~= ts@);
    let mut k: usize = 0;
    while k < target_qubits.len()
        invariant
            k <= target_qubits.len(),
            ts@ == target_qubits@,
            target_qubits.len() == expected_targets,
            first_out_of_range(ts@, num_qubits) == first_out_of_range(ts@.subrange(k as int, ts@.len() as int), num_qubits),
        decreases target_qubits.len() - k,
    {
        let rest = Ghost(ts@.subrange(k as int, ts@.len() as int));
        assert(rest@.drop_first() =~= ts@.subrange(k + 1, ts@.len() as int));
        assert(rest@[0] == ts@[k as int]);
        if target_qubits[k] >= num_qubits {
            return Err(Error::InvalidQubitIndex(target_qubits[k], num_qubits));
        }
        k += 1;
    }
    assert(ts@.subrange(k as int, ts@.len() as int) =~= Seq::<usize>::empty());
    assert(cs@.subrange(0, cs@.len() as int) =~= cs@);
    let mut c: usize = 0;
    while c < control_qubits.len()
        invariant
            c <= control_qubits.len(),
            ts@ == target_qubits@,
            target_qubits.len() == expected_targets,
            cs@ == control_qubits@,
            first_out_of_range(ts@, num_qubits) is None,
            first_bad_control(cs@, ts@, num_qubits) == first_bad_control(cs@.subrange(c as int, cs@.len() as int), ts@, num_qubits),
        decreases control_qubits.len() - c,
    {
        let rest = Ghost(cs@.subrange(c as int, cs@.len() as int));
        assert(rest@.drop_first() =~= cs@.subrange(c + 1, cs@.len() as int));
        assert(rest@[0] == cs@[c as int]);
        let control_qubit = control_qubits[c];
        if control_qubit >= num_qubits {
            return Err(Error::InvalidQubitIndex(control_qubit, num_qubits));
        }
        let mut t: usize = 0;
        while t < target_qubits.len()
            invariant
                t <= target_qubits.len(),
                ts@ == target_qubits@,
                cs@ == control_qubits@,
                target_qubits.len() == expected_targets,
                first_out_of_range(ts@, num_qubits) is None,
                c < control_qubits.len(),
                rest@ == cs@.subrange(c as int, cs@.len() as int),
                first_bad_control(cs@, ts@, num_qubits) == first_bad_control(rest@, ts@, num_qubits),
                control_qubit == cs@[c as int],
                control_qubit < num_qubits,
                forall|m: int| 0 <= m < t ==> ts@[m] != control_qubit,
            decreases target_qubits.len() - t,
        {
            if control_qubit == target_qubits[t] {
                assert(ts@.contains(control_qubit));
                return Err(Error::OverlappingControlAndTargetQubits(control_qubit, target_qubits[t]));
            }
            t += 1;
        }
        assert(!ts@.contains(control_qubit));
        c += 1;
    }
    assert(cs@.subrange(c as int, cs@.len() as int) =~= Seq::<usize>::empty());
    if expected_targets > 1 {
        assert(ts@.subrange(0, ts@.len() as int) =~= ts@);
        let mut i: usize = 0;
        while i < target_qubits.len()
            invariant
                i <= target_qubits.len(),
                ts@ == target_qubits@,
                cs@ == control_qubits@,
                target_qubits.len() == expected_targets,
                expected_targets > 1,
                first_out_of_range(ts@, num_qubits) is None,
                first_bad_control(cs@, ts@, num_qubits) is None,
                first_repeated(ts@) == first_repeated(ts@.subrange(i as int, ts@.len() as int)),
            decreases target_qubits.len() - i,
        {
            let rest = Ghost(ts@.subrange(i as int, ts@.len() as int));
            assert(rest@.drop_first() =~= ts@.subrange(i + 1, ts@.len() as int));
            assert(rest@[0] == ts@[i as int]);
            let mut j: usize = i + 1;
            while j < target_qubits.len()
                invariant
                    i < j <= target_qubits.len(),
                    ts@ == target_qubits@,
                    cs@ == control_qubits@,
                    target_qubits.len() == expected_targets,
                    expected_targets > 1,
                    first_out_of_range(ts@, num_qubits) is None,
                    first_bad_control(cs@, ts@, num_qubits) is None,
                    first_repeated(ts@) == first_repeated(rest@),
                    rest@ == ts@.subrange(i as int, ts@.len() as int),
                    forall|m: int| i < m < j ==> ts@[m] != ts@[i as int],
                decreases target_qubits.len() - j,
            {
                if target_qubits[i] == target_qubits[j] {
                    assert(rest@.drop_first()[j - i - 1] == ts@[i as int]);
                    return Err(Error::InvalidQubitIndex(target_qubits[i], num_qubits));
                }
                j += 1;
            }
            assert(!rest@.drop_first().contains(ts@[i as int])) by {
                if rest@.drop_first().contains(ts@[i as int]) {
                    let m = choose|m: int| 0 <= m < rest@.drop_first().len() && rest@.drop_first()[m] == ts@[i as int];
                    assert(ts@[i + 1 + m] == ts@[i as int]);
                }
            }
            i += 1;
        }
        assert(ts@.subrange(i as int, ts@.len() as int) =~= Seq::<usize>::empty());
    }
    Ok(())
}

} // verus!
