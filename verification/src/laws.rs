//! Crate-level laws: properties that relate several operations, stated over
//! the same spec functions the operations' contracts use, and proved once for
//! all inputs.
use vstd::prelude::*;
use vstd::arithmetic::div_mod::{lemma_mod_multiples_vanish, lemma_small_mod};
use crate::duration::{convert_count, convert_seq, DurationColumn};
use crate::errors::BinOp;
use crate::dtypes::TimeUnit;
use crate::physical::{binop_val, max_val, min_val};

verus! {

/// Multiplying a count by a factor of one wraps to itself.
pub proof fn lemma_wrapping_mul_one(x: i64)
    ensures
        x.wrapping_mul(1) == x,
{
    let r = 0x1_0000_0000_0000_0000int;
    if x >= 0 {
        lemma_small_mod(x as nat, r as nat);
    } else {
        lemma_mod_multiples_vanish(1, x as int, r);
        lemma_small_mod((x as int + r) as nat, r as nat);
    }
}

/// Law (round trip): converting a count to the unit it already has is the
/// identity, nulls included. With the contracts of `DurationColumn::cast`
/// (to Int64, the physical buffer unchanged) and
/// `DurationColumn::from_physical` (a pure re-tag), this is exactly the
/// statement that casting a duration column to its physical representation
/// and back to its own dtype returns the column unchanged, element for
/// element.
pub proof fn lemma_cast_round_trip(d: DurationColumn)
    ensures
        convert_seq(d.phys@, d.unit, d.unit) == d.phys@,
{
    assert forall|i: int| 0 <= i < d.phys@.len() implies convert_count(d.phys@[i], d.unit, d.unit)
        == d.phys@[i] by {
        match d.phys@[i] {
            Some(x) => {
                lemma_wrapping_mul_one(x);
            },
            None => {},
        }
    }
    assert(convert_seq(d.phys@, d.unit, d.unit) =~= d.phys@);
}

/// Law (null propagation, arithmetic): an elementwise operation never turns
/// a null into a value. Addition, subtraction and multiplication are non-null
/// exactly where both operands are; division and remainder additionally give
/// null exactly on a zero divisor.
pub proof fn lemma_null_propagation(op: BinOp, a: Option<i64>, b: Option<i64>)
    ensures
        binop_val(op, a, b) is Some ==> (a is Some && b is Some),
        (op == BinOp::Add || op == BinOp::Sub || op == BinOp::Mul) ==> ((binop_val(
            op,
            a,
            b,
        ) is Some) <==> (a is Some && b is Some)),
        (op == BinOp::Div || op == BinOp::Rem) ==> ((binop_val(op, a, b) is Some) <==> (a is Some
            && (b matches Some(y) && y != 0))),
{
}

/// Law (null propagation, casts): unit conversion maps null to null and
/// value to value, so every cast between duration dtypes keeps the null
/// positions exactly.
pub proof fn lemma_convert_preserves_nulls(v: Option<i64>, from: TimeUnit, to: TimeUnit)
    ensures
        convert_count(v, from, to) is Some <==> v is Some,
{
}

/// Law (null-skipping reductions): the minimum is a value exactly when some
/// element is a value — nulls are skipped, never materialised as zeros.
pub proof fn lemma_min_skips_nulls(s: Seq<Option<i64>>)
    ensures
        (min_val(s) is Some) <==> exists|i: int| 0 <= i < s.len() && s[i] is Some,
    decreases s.len(),
{
    if s.len() > 0 {
        lemma_min_skips_nulls(s.drop_last());
        if s.last() is Some {
            assert(s[s.len() - 1] is Some);
        } else if min_val(s.drop_last()) is Some {
            let i = choose|i: int|
                0 <= i < s.drop_last().len() && #[trigger] s.drop_last()[i] is Some;
            assert(s[i] is Some);
        } else if exists|i: int| 0 <= i < s.len() && s[i] is Some {
            let i = choose|i: int| 0 <= i < s.len() && #[trigger] s[i] is Some;
            assert(i < s.len() - 1 ==> s.drop_last()[i] is Some);
        }
    }
}

/// Law (null-skipping reductions): as `lemma_min_skips_nulls`, for the
/// maximum.
pub proof fn lemma_max_skips_nulls(s: Seq<Option<i64>>)
    ensures
        (max_val(s) is Some) <==> exists|i: int| 0 <= i < s.len() && s[i] is Some,
    decreases s.len(),
{
    if s.len() > 0 {
        lemma_max_skips_nulls(s.drop_last());
        if s.last() is Some {
            assert(s[s.len() - 1] is Some);
        } else if max_val(s.drop_last()) is Some {
            let i = choose|i: int|
                0 <= i < s.drop_last().len() && #[trigger] s.drop_last()[i] is Some;
            assert(s[i] is Some);
        } else if exists|i: int| 0 <= i < s.len() && s[i] is Some {
            let i = choose|i: int| 0 <= i < s.len() && #[trigger] s[i] is Some;
            assert(i < s.len() - 1 ==> s.drop_last()[i] is Some);
        }
    }
}

} // verus!
