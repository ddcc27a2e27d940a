//! Enumeration of the parameter grid: every combination of the axis values,
//! the slot labels, and the grid-size limits.
use vstd::prelude::*;
use vstd::arithmetic::div_mod::{lemma_fundamental_div_mod, lemma_fundamental_div_mod_converse};
use crate::text::{push_char, push_zero_padded, zero_padded, push_decimal, decimal, lemma_zero_padded_injective};

verus! {

/// Largest number of parameter combinations a grid may hold.
pub const MAX_GRID_COMBOS: usize = 2000;

/// Number of combinations of axes with `lens[i]` values each.
pub open spec fn combo_count(lens: Seq<usize>) -> nat
    decreases lens.len(),
{
    if lens.len() == 0 {
        1
    } else {
        combo_count(lens.drop_last()) * (lens.last() as nat)
    }
}

/// Combination number `k`: the value index chosen on each axis.  The last axis
/// varies fastest, the first axis slowest (the mixed-radix digits of `k`).
pub open spec fn combination(lens: Seq<usize>, k: nat) -> Seq<usize>
    decreases lens.len(),
{
    if lens.len() == 0 {
        seq![]
    } else {
        let l = lens.last() as nat;
        combination(lens.drop_last(), k / l).push((k % l) as usize)
    }
}

/// The position of combination `t` in the enumeration.
pub open spec fn combination_index(lens: Seq<usize>, t: Seq<usize>) -> nat
    decreases lens.len(),
{
    if lens.len() == 0 {
        0
    } else {
        combination_index(lens.drop_last(), t.drop_last()) * (lens.last() as nat) + (t.last() as nat)
    }
}

/// `t` picks one value index on every axis.
pub open spec fn within_axes(lens: Seq<usize>, t: Seq<usize>) -> bool {
    &&& t.len() == lens.len()
    &&& forall|i: int| 0 <= i < t.len() ==> #[trigger] t[i] < lens[i]
}

/// Every axis holds at least one value.
pub open spec fn axes_nonempty(lens: Seq<usize>) -> bool {
    forall|i: int| 0 <= i < lens.len() ==> #[trigger] lens[i] > 0
}

proof fn lemma_combo_count_positive(lens: Seq<usize>)
    requires
        axes_nonempty(lens),
    ensures
        combo_count(lens) >= 1,
    decreases lens.len(),
{
    if lens.len() > 0 {
        lemma_combo_count_positive(lens.drop_last());
        let c = combo_count(lens.drop_last());
        let l = lens.last() as nat;
        assert(c * l >= 1) by (nonlinear_arith)
            requires
                c >= 1,
                l >= 1,
        ;
    }
}

proof fn lemma_combo_count_prefix(lens: Seq<usize>, i: int)
    requires
        axes_nonempty(lens),
        0 <= i <= lens.len(),
    ensures
        combo_count(lens.take(i)) <= combo_count(lens),
    decreases lens.len() - i,
{
    if i < lens.len() {
        lemma_combo_count_prefix(lens, i + 1);
        let p = lens.take(i + 1);
        assert(p.drop_last() =~= lens.take(i));
        lemma_combo_count_positive(p.drop_last());
        let c = combo_count(p.drop_last());
        let l = p.last() as nat;
        assert(c <= c * l) by (nonlinear_arith)
            requires
                c >= 1,
                l >= 1,
        ;
    } else {
        assert(lens.take(i) =~= lens);
    }
}

/// Combination `k` of a grid with `combo_count(lens)` combinations picks a
/// valid index on every axis, and its position is `k` again.
pub proof fn lemma_combination_roundtrip(lens: Seq<usize>, k: nat)
    requires
        axes_nonempty(lens),
        k < combo_count(lens),
    ensures
        within_axes(lens, combination(lens, k)),
        combination_index(lens, combination(lens, k)) == k,
    decreases lens.len(),
{
    if lens.len() > 0 {
        let l = lens.last() as nat;
        let c = combo_count(lens.drop_last());
        let q = k / l;
        let r = k % l;
        lemma_fundamental_div_mod(k as int, l as int);
        assert(q < c) by (nonlinear_arith)
            requires
                k == l * q + r,
                0 <= r < l,
                k < c * l,
                q >= 0,
        ;
        assert(axes_nonempty(lens.drop_last()));
        lemma_combination_roundtrip(lens.drop_last(), q);
        let t = combination(lens, k);
        assert(t.drop_last() =~= combination(lens.drop_last(), q));
        assert(within_axes(lens, t));
        assert(combination_index(lens, t) == q * l + r);
        assert(q * l + r == k) by (nonlinear_arith)
            requires
                k == l * q + r,
        ;
    }
}

/// Every valid choice of value indices is a combination of the grid, found at
/// position `combination_index(lens, t)`.
pub proof fn lemma_index_roundtrip(lens: Seq<usize>, t: Seq<usize>)
    requires
        within_axes(lens, t),
    ensures
        combination_index(lens, t) < combo_count(lens),
        combination(lens, combination_index(lens, t)) == t,
    decreases lens.len(),
{
    if lens.len() > 0 {
        let l = lens.last() as nat;
        let c = combo_count(lens.drop_last());
        let prefix = t.drop_last();
        assert(within_axes(lens.drop_last(), prefix));
        lemma_index_roundtrip(lens.drop_last(), prefix);
        let q = combination_index(lens.drop_last(), prefix);
        let r = t.last() as nat;
        assert(r < l) by {
            assert(t[t.len() - 1] < lens[lens.len() - 1]);
        }
        let i = q * l + r;
        assert(i < c * l) by (nonlinear_arith)
            requires
                q < c,
                r < l,
                i == q * l + r,
        ;
        lemma_fundamental_div_mod_converse(i as int, l as int, q as int, r as int);
        assert(combination(lens, i) =~= prefix.push(t.last()));
        assert(prefix.push(t.last()) =~= t);
    }
}

/// The grid enumeration lists every combination of the axis values exactly
/// once: each listed combination picks a valid value on every axis, no two
/// positions list the same combination, and every valid combination is listed.
pub proof fn lemma_grid_lists_each_combination_once(lens: Seq<usize>)
    requires
        axes_nonempty(lens),
    ensures
        forall|k: nat| k < combo_count(lens) ==> within_axes(lens, #[trigger] combination(lens, k)),
        forall|k1: nat, k2: nat|
            k1 < combo_count(lens) && k2 < combo_count(lens) && #[trigger] combination(lens, k1)
                == #[trigger] combination(lens, k2) ==> k1 == k2,
        forall|t: Seq<usize>|
            within_axes(lens, t) ==> exists|k: nat| k < combo_count(lens) && #[trigger] combination(lens, k) == t,
{
    assert forall|k: nat| k < combo_count(lens) implies within_axes(lens, #[trigger] combination(lens, k)) by {
        lemma_combination_roundtrip(lens, k);
    }
    assert forall|k1: nat, k2: nat|
        k1 < combo_count(lens) && k2 < combo_count(lens) && #[trigger] combination(lens, k1)
            == #[trigger] combination(lens, k2) implies k1 == k2 by {
        lemma_combination_roundtrip(lens, k1);
        lemma_combination_roundtrip(lens, k2);
    }
    assert forall|t: Seq<usize>| within_axes(lens, t) implies exists|k: nat|
        k < combo_count(lens) && #[trigger] combination(lens, k) == t by {
        lemma_index_roundtrip(lens, t);
        let k = combination_index(lens, t);
        assert(combination(lens, k) == t);
    }
}

/// Why a parameter grid is refused.
#[derive(Debug, Clone, Copy, PartialEq, Eq)]
pub enum GridError {
    /// The grid names no parameter axis.
    NoAxes,
    /// The grid has this many combinations, more than `MAX_GRID_COMBOS`.
    TooLarge(usize),
}

/// Number of combinations of the axes, `combo_count(axis_lens)`.
pub fn grid_size(axis_lens: &Vec<usize>) -> (n: usize)
    requires
        axes_nonempty(axis_lens@),
        combo_count(axis_lens@) <= usize::MAX,
    ensures
        n == combo_count(axis_lens@),
{
    let mut count: usize = 1;
    let mut i: usize = 0;
    while i < axis_lens.len()
        invariant
            i <= axis_lens.len(),
            axes_nonempty(axis_lens@),
            combo_count(axis_lens@) <= usize::MAX,
            count == combo_count(axis_lens@.take(i as int)),
        decreases axis_lens.len() - i,
    {
        proof {
            lemma_combo_count_prefix(axis_lens@, i + 1);
            assert(axis_lens@.take(i + 1).drop_last() =~= axis_lens@.take(i as int));
        }
        count = count * axis_lens[i];
        i = i + 1;
    }
    assert(axis_lens@.take(i as int) =~= axis_lens@);
    count
}

/// `n` zeros.
pub open spec fn zeros(n: nat) -> Seq<usize> {
    Seq::new(n, |i: int| 0usize)
}

/// One step of the odometer over value indices `d`: the last axis is advanced
/// first; an axis that runs past its last value goes back to zero and carries
/// into the axis before it.  The flag tells whether the first axis carried out.
pub open spec fn odometer_step(lens: Seq<usize>, d: Seq<usize>) -> (Seq<usize>, bool)
    decreases lens.len(),
{
    if lens.len() == 0 {
        (seq![], true)
    } else if d.last() + 1 >= lens.last() {
        let (prefix, carry) = odometer_step(lens.drop_last(), d.drop_last());
        (prefix.push(0usize), carry)
    } else {
        (d.drop_last().push((d.last() + 1) as usize), false)
    }
}

/// The first combination is all zeros.
proof fn lemma_combination_zero(lens: Seq<usize>)
    requires
        axes_nonempty(lens),
    ensures
        combination(lens, 0) == zeros(lens.len()),
    decreases lens.len(),
{
    if lens.len() > 0 {
        assert(axes_nonempty(lens.drop_last()));
        lemma_combination_zero(lens.drop_last());
        let l = lens.last() as nat;
        assert(0nat / l == 0 && 0nat % l == 0);
        assert(zeros((lens.len() - 1) as nat).push(0usize) =~= zeros(lens.len()));
    }
}

/// The odometer steps from combination `k` to combination `k + 1`, and
/// carries out exactly after the last combination, back to all zeros.
proof fn lemma_odometer_step(lens: Seq<usize>, k: nat)
    requires
        axes_nonempty(lens),
        k < combo_count(lens),
    ensures
        odometer_step(lens, combination(lens, k)) == if k + 1 < combo_count(lens) {
            (combination(lens, k + 1), false)
        } else {
            (zeros(lens.len()), true)
        },
    decreases lens.len(),
{
    if lens.len() > 0 {
        let l = lens.last() as nat;
        let c = combo_count(lens.drop_last());
        let q = k / l;
        let r = k % l;
        lemma_fundamental_div_mod(k as int, l as int);
        assert(q < c) by (nonlinear_arith)
            requires
                k == l * q + r,
                0 <= r < l,
                k < c * l,
                q >= 0,
        ;
        let d = combination(lens, k);
        assert(d.drop_last() =~= combination(lens.drop_last(), q));
        assert(d.last() == r);
        assert(axes_nonempty(lens.drop_last()));
        if r + 1 < l {
            lemma_fundamental_div_mod_converse((k + 1) as int, l as int, q as int, (r + 1) as int);
            assert(k + 1 < c * l) by (nonlinear_arith)
                requires
                    k + 1 == q * l + (r + 1),
                    r + 1 < l,
                    q < c,
            ;
            assert(combination(lens, k + 1) =~= combination(lens.drop_last(), q).push(
                (r + 1) as usize,
            ));
        } else {
            lemma_odometer_step(lens.drop_last(), q);
            assert(k + 1 == (q + 1) * l) by (nonlinear_arith)
                requires
                    k == l * q + r,
                    r + 1 == l,
            ;
            lemma_fundamental_div_mod_converse((k + 1) as int, l as int, (q + 1) as int, 0);
            if q + 1 < c {
                assert(k + 1 < c * l) by (nonlinear_arith)
                    requires
                        k + 1 == (q + 1) * l,
                        q + 1 < c,
                        l >= 1,
                ;
                assert(combination(lens, k + 1) =~= combination(lens.drop_last(), q + 1).push(
                    0usize,
                ));
            } else {
                assert(k + 1 == c * l);
                assert(zeros((lens.len() - 1) as nat).push(0usize) =~= zeros(lens.len()));
            }
        }
    }
}

/// Advances `indices` by one odometer step; returns whether the first axis
/// carried out.
fn advance_indices(indices: &mut Vec<usize>, axis_lens: &Vec<usize>) -> (carry: bool)
    requires
        old(indices).len() == axis_lens.len(),
        within_axes(axis_lens@, old(indices)@),
    ensures
        final(indices).len() == old(indices).len(),
        (final(indices)@, carry) == odometer_step(axis_lens@, old(indices)@),
{
    let ghost d0 = indices@;
    let n = indices.len();
    let mut carry = true;
    let mut i: usize = n;
    assert(axis_lens@.take(n as int) =~= axis_lens@);
    assert(d0.take(n as int) =~= d0);
    assert(d0 + zeros(0) =~= d0);
    assert(odometer_step(axis_lens@, d0).0 + zeros(0) =~= odometer_step(axis_lens@, d0).0);
    while i > 0
        invariant
            n == indices.len() == axis_lens.len() == d0.len(),
            within_axes(axis_lens@, d0),
            i <= n,
            carry ==> indices@ == d0.take(i as int) + zeros((n - i) as nat),
            carry ==> odometer_step(axis_lens@, d0) == (
                odometer_step(axis_lens@.take(i as int), d0.take(i as int)).0 + zeros((n - i) as nat),
                odometer_step(axis_lens@.take(i as int), d0.take(i as int)).1,
            ),
            !carry ==> (indices@, false) == odometer_step(axis_lens@, d0),
        decreases i,
    {
        i = i - 1;
        if carry {
            let ghost lp = axis_lens@.take(i + 1);
            let ghost dp = d0.take(i + 1);
            assert(lp.drop_last() =~= axis_lens@.take(i as int));
            assert(dp.drop_last() =~= d0.take(i as int));
            assert(lp.last() == axis_lens@[i as int]);
            assert(dp.last() == d0[i as int]);
            assert(indices@[i as int] == d0[i as int]);
            assert(d0[i as int] < axis_lens@[i as int]);
            let next = indices[i] + 1;
            if next >= axis_lens[i] {
                indices.set(i, 0);
                let ghost inner = odometer_step(axis_lens@.take(i as int), d0.take(i as int));
                assert(odometer_step(lp, dp) == (inner.0.push(0usize), inner.1));
                assert(inner.0.push(0usize) + zeros((n - i - 1) as nat) =~= inner.0 + zeros(
                    (n - i) as nat,
                ));
                assert(indices@ =~= d0.take(i as int) + zeros((n - i) as nat));
            } else {
                indices.set(i, next);
                carry = false;
                assert(odometer_step(lp, dp) == (d0.take(i as int).push(next), false));
                assert(indices@ =~= d0.take(i as int).push(next) + zeros((n - i - 1) as nat));
            }
        }
    }
    proof {
        if carry {
            assert(axis_lens@.take(0) =~= Seq::<usize>::empty());
            assert(d0.take(0) =~= Seq::<usize>::empty());
            assert(indices@ =~= zeros(n as nat));
            assert(Seq::<usize>::empty() + zeros(n as nat) =~= zeros(n as nat));
        }
    }
    carry
}

/// All combinations of a parameter grid, in order: combination `k` lists the
/// value index chosen on each axis, the last axis varying fastest.  A grid with
/// no axis, or with more than `MAX_GRID_COMBOS` combinations, is refused.
pub fn grid_combinations(axis_lens: &Vec<usize>) -> (r: Result<Vec<Vec<usize>>, GridError>)
    requires
        axes_nonempty(axis_lens@),
        combo_count(axis_lens@) <= usize::MAX,
    ensures
        match r {
            Ok(v) => {
                &&& axis_lens.len() > 0
                &&& combo_count(axis_lens@) <= MAX_GRID_COMBOS
                &&& v.len() == combo_count(axis_lens@)
                &&& forall|k: int| 0 <= k < v.len() ==> #[trigger] v[k]@ == combination(axis_lens@, k as nat)
            },
            Err(GridError::NoAxes) => axis_lens.len() == 0,
            Err(GridError::TooLarge(n)) => {
                &&& axis_lens.len() > 0
                &&& n == combo_count(axis_lens@)
                &&& n > MAX_GRID_COMBOS
            },
        },
{
    if axis_lens.len() == 0 {
        return Err(GridError::NoAxes);
    }
    let count = grid_size(axis_lens);
    if count > MAX_GRID_COMBOS {
        return Err(GridError::TooLarge(count));
    }
    let mut combos: Vec<Vec<usize>> = Vec::new();
    let mut indices: Vec<usize> = vec![0usize; axis_lens.len()];
    proof {
        lemma_combination_zero(axis_lens@);
        lemma_combo_count_positive(axis_lens@);
        assert(indices@ =~= zeros(axis_lens.len() as nat));
    }
    loop
        invariant_except_break
            combos.len() < count,
            indices@ == combination(axis_lens@, combos.len() as nat),
        invariant
            count == combo_count(axis_lens@) <= MAX_GRID_COMBOS,
            axes_nonempty(axis_lens@),
            indices.len() == axis_lens.len(),
            forall|i: int| 0 <= i < combos.len() ==> #[trigger] combos[i]@ == combination(axis_lens@, i as nat),
        ensures
            combos.len() == count,
            forall|i: int| 0 <= i < combos.len() ==> #[trigger] combos[i]@ == combination(axis_lens@, i as nat),
        decreases count - combos.len(),
    {
        let ghost k = combos.len() as nat;
        proof {
            lemma_combination_roundtrip(axis_lens@, k);
            lemma_odometer_step(axis_lens@, k);
        }
        let snapshot = indices.clone();
        assert(snapshot@ =~= indices@);
        combos.push(snapshot);
        let carry = advance_indices(&mut indices, axis_lens);
        if carry {
            break;
        }
    }
    Ok(combos)
}

/// Size beyond which the grid summary log is rotated: 10 MiB.
pub const SUMMARY_LOG_ROTATE_BYTES: u64 = 10 * 1024 * 1024;

/// Whether the summary log, `len` bytes long, is rotated before the next
/// summary line is appended: it is rotated once it exceeds 10 MiB.
pub fn summary_log_needs_rotation(len: u64) -> (rotate: bool)
    ensures
        rotate == (len > 10 * 1024 * 1024),
{
    len > SUMMARY_LOG_ROTATE_BYTES
}

/// Label of grid slot `index`: `s` and the index, zero-padded to three digits.
pub fn slot_label(index: usize) -> (label: String)
    ensures
        label@ == seq!['s'] + zero_padded(index as nat, 3),
{
    let mut label = String::new();
    push_char(&mut label, 's');
    push_zero_padded(&mut label, index as u64, 3);
    label
}

/// Different grid slots never share a label.
pub proof fn lemma_slot_labels_distinct(a: nat, b: nat)
    requires
        a != b,
    ensures
        seq!['s'] + zero_padded(a, 3) != seq!['s'] + zero_padded(b, 3),
{
    lemma_zero_padded_injective(a, b, 3);
    if seq!['s'] + zero_padded(a, 3) == seq!['s'] + zero_padded(b, 3) {
        assert(zero_padded(a, 3) =~= (seq!['s'] + zero_padded(a, 3)).skip(1));
        assert(zero_padded(b, 3) =~= (seq!['s'] + zero_padded(b, 3)).skip(1));
    }
}

impl GridError {
    /// The message shown when the grid is refused.
    pub fn message(&self) -> (m: String)
        ensures
            m@ == match self {
                GridError::NoAxes => "Grid config 'parameters' must contain at least one axis"@,
                GridError::TooLarge(n) => "Grid too large: "@ + decimal(*n as nat)
                    + " combos (max 2000)"@,
            },
    {
        match self {
            GridError::NoAxes => String::from_str("Grid config 'parameters' must contain at least one axis"),
            GridError::TooLarge(n) => {
                let mut m = String::from_str("Grid too large: ");
                push_decimal(&mut m, *n as u64);
                m.append(" combos (max 2000)");
                m
            },
        }
    }
}

} // verus!
