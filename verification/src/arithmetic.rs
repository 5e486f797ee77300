//! The arithmetic dispatcher: subtract, add, multiply, divide and remainder
//! between a duration column and another column, dispatching on the
//! right-hand dtype. Every branch either aligns the units, strips the tag,
//! runs the integer kernel and re-tags the result, or fails with the typed
//! error that names the rule broken. The two branches that must run through
//! the external float engine return [`ArithOutcome::FloatRoundTrip`] and are
//! finished by [`DurationColumn::retag_float_result`].
use vstd::prelude::*;
use crate::dtypes::{spec_ticks_per_day, ticks_per_day, TimeUnit};
use crate::duration::{convert_seq, DurationColumn};
use crate::errors::{BinOp, ColumnError};
use crate::physical::{
    binop_val, broadcast_at, broadcast_compat, broadcast_len, kernel_ok, narrow_i32, narrow_opt,
    widen_i32, widened, Int64Column,
};
use crate::series::{clone_tz, DateColumn, DatetimeColumn, Float64Column, Series};

verus! {

/// Result of a multiply/divide dispatch. `Done` carries the finished column.
/// `FloatRoundTrip` says the right-hand side is float-typed, so the numeric
/// work belongs to the external float engine: cast the duration's counts to
/// the float dtype, apply the operator, cast the result back to Int64
/// non-strictly, and re-tag the counts with the carried unit through
/// [`DurationColumn::retag_float_result`].
#[derive(Debug, PartialEq, Eq)]
pub enum ArithOutcome {
    Done(Series),
    FloatRoundTrip(TimeUnit),
}

/// The null structure of a float column born from two integer operands:
/// valid exactly where both are (float division never introduces nulls).
pub open spec fn valid_and(a: Seq<Option<i64>>, b: Seq<Option<i64>>) -> Seq<bool> {
    Seq::new(
        broadcast_len(a, b) as nat,
        |i: int| broadcast_at(a, i) is Some && broadcast_at(b, i) is Some,
    )
}

/// The per-element day increment a duration contributes to a date: integer
/// division by the unit's ticks per day, truncating toward zero, so sub-day
/// remainders are deliberately dropped.
pub open spec fn day_increments(dur: Seq<Option<i64>>, unit: TimeUnit) -> Seq<Option<i64>> {
    dur.map_values(|v: Option<i64>| binop_val(BinOp::Div, v, Some(spec_ticks_per_day(unit))))
}

/// The day counts after adding a duration to a date: day increments plus the
/// widened day counts, cast back non-strictly to 32 bits.
pub open spec fn date_add_result(
    dur: Seq<Option<i64>>,
    unit: TimeUnit,
    dates: Seq<Option<i32>>,
) -> Seq<Option<i32>> {
    let days = day_increments(dur, unit);
    let wd = widened(dates);
    Seq::new(
        broadcast_len(days, wd) as nat,
        |i: int| narrow_opt(binop_val(BinOp::Add, broadcast_at(days, i), broadcast_at(wd, i))),
    )
}

fn and_validity(a: &Int64Column, b: &Int64Column) -> (r: Result<Vec<bool>, ColumnError>)
    ensures
        broadcast_compat(a@, b@) ==> (r matches Ok(v) && v@ == valid_and(a@, b@)),
        !broadcast_compat(a@, b@) ==> r == Err::<Vec<bool>, ColumnError>(
            ColumnError::ShapeMismatch,
        ),
{
    let n_l = a.values.len();
    let n_r = b.values.len();
    if !(n_l == n_r || n_l == 1 || n_r == 1) {
        return Err(ColumnError::ShapeMismatch);
    }
    let n: usize = if n_l == n_r {
        n_l
    } else if n_r == 1 {
        n_l
    } else {
        n_r
    };
    let mut out: Vec<bool> = Vec::new();
    let mut i: usize = 0;
    while i < n
        invariant
            i <= n,
            n_l == a@.len(),
            n_r == b@.len(),
            broadcast_compat(a@, b@),
            n == broadcast_len(a@, b@),
            out@.len() == i,
            forall|j: int|
                0 <= j < i ==> out@[j] == (broadcast_at(a@, j) is Some && broadcast_at(
                    b@,
                    j,
                ) is Some),
        decreases n - i,
    {
        let x = if n_l == 1 {
            a.values[0]
        } else {
            a.values[i]
        };
        let y = if n_r == 1 {
            b.values[0]
        } else {
            b.values[i]
        };
        out.push(x.is_some() && y.is_some());
        i += 1;
    }
    proof {
        assert(out@ =~= valid_and(a@, b@));
    }
    Ok(out)
}

impl DurationColumn {
    /// duration − duration: the units must match exactly; the shared unit is
    /// re-attached to the physical difference. Any other right-hand dtype is
    /// unsupported.
    pub fn subtract(&self, rhs: &Series) -> (r: Result<Series, ColumnError>)
        ensures
            match rhs {
                Series::Duration(o) => {
                    if o.unit == self.unit {
                        if broadcast_compat(self.phys@, o.phys@) {
                            r matches Ok(s) && s matches Series::Duration(d) && d.unit == self.unit
                                && d.name == self.name && kernel_ok(
                                self.phys@,
                                BinOp::Sub,
                                o.phys@,
                                d.phys@,
                            )
                        } else {
                            r == Err::<Series, ColumnError>(ColumnError::ShapeMismatch)
                        }
                    } else {
                        r == Err::<Series, ColumnError>(ColumnError::UnitMismatch)
                    }
                },
                _ => r == Err::<Series, ColumnError>(
                    ColumnError::UnsupportedOperation {
                        op: BinOp::Sub,
                        left: self.dtype_spec(),
                        right: rhs.dtype_spec(),
                    },
                ),
            },
    {
        match rhs {
            Series::Duration(o) => {
                if o.unit != self.unit {
                    return Err(ColumnError::UnitMismatch);
                }
                match self.phys.apply_binary(BinOp::Sub, &o.phys) {
                    Ok(c) => Ok(
                        Series::Duration(
                            DurationColumn { name: self.name.clone(), unit: self.unit, phys: c },
                        ),
                    ),
                    Err(e) => Err(e),
                }
            },
            _ => Err(
                ColumnError::UnsupportedOperation {
                    op: BinOp::Sub,
                    left: self.dtype(),
                    right: rhs.dtype(),
                },
            ),
        }
    }

    /// duration + duration (equal units), duration + date (the duration is
    /// first truncated to whole days), or duration + datetime (equal units,
    /// the time zone carried through). Any other right-hand dtype is
    /// unsupported.
    pub fn add_to(&self, rhs: &Series) -> (r: Result<Series, ColumnError>)
        ensures
            match rhs {
                Series::Duration(o) => {
                    if o.unit == self.unit {
                        if broadcast_compat(self.phys@, o.phys@) {
                            r matches Ok(s) && s matches Series::Duration(d) && d.unit == self.unit
                                && d.name == self.name && kernel_ok(
                                self.phys@,
                                BinOp::Add,
                                o.phys@,
                                d.phys@,
                            )
                        } else {
                            r == Err::<Series, ColumnError>(ColumnError::ShapeMismatch)
                        }
                    } else {
                        r == Err::<Series, ColumnError>(ColumnError::UnitMismatch)
                    }
                },
                Series::Date(dc) => {
                    if broadcast_compat(day_increments(self.phys@, self.unit), widened(dc.values@)) {
                        r matches Ok(s) && s matches Series::Date(out) && out.name == self.name
                            && out.values@ == date_add_result(self.phys@, self.unit, dc.values@)
                    } else {
                        r == Err::<Series, ColumnError>(ColumnError::ShapeMismatch)
                    }
                },
                Series::Datetime(c) => {
                    if c.unit == self.unit {
                        if broadcast_compat(self.phys@, c.phys@) {
                            r matches Ok(s) && s matches Series::Datetime(out) && out.unit
                                == self.unit && out.tz == c.tz && out.name == self.name
                                && kernel_ok(self.phys@, BinOp::Add, c.phys@, out.phys@)
                        } else {
                            r == Err::<Series, ColumnError>(ColumnError::ShapeMismatch)
                        }
                    } else {
                        r == Err::<Series, ColumnError>(ColumnError::UnitMismatch)
                    }
                },
                _ => r == Err::<Series, ColumnError>(
                    ColumnError::UnsupportedOperation {
                        op: BinOp::Add,
                        left: self.dtype_spec(),
                        right: rhs.dtype_spec(),
                    },
                ),
            },
    {
        match rhs {
            Series::Duration(o) => {
                if o.unit != self.unit {
                    return Err(ColumnError::UnitMismatch);
                }
                match self.phys.apply_binary(BinOp::Add, &o.phys) {
                    Ok(c) => Ok(
                        Series::Duration(
                            DurationColumn { name: self.name.clone(), unit: self.unit, phys: c },
                        ),
                    ),
                    Err(e) => Err(e),
                }
            },
            Series::Date(dc) => {
                let t = ticks_per_day(self.unit);
                let ticks = Int64Column::splat(Some(t));
                let days = match self.phys.apply_binary(BinOp::Div, &ticks) {
                    Ok(c) => c,
                    Err(e) => {
                        proof {
                            assert(false);
                        }
                        return Err(e);
                    },
                };
                proof {
                    assert(days@ =~= day_increments(self.phys@, self.unit));
                }
                let wd = widen_i32(&dc.values);
                match days.apply_binary(BinOp::Add, &wd) {
                    Ok(sums) => {
                        let vals = narrow_i32(&sums);
                        proof {
                            assert(vals@ =~= date_add_result(self.phys@, self.unit, dc.values@));
                        }
                        Ok(Series::Date(DateColumn { name: self.name.clone(), values: vals }))
                    },
                    Err(e) => Err(e),
                }
            },
            Series::Datetime(c) => {
                if c.unit != self.unit {
                    return Err(ColumnError::UnitMismatch);
                }
                match self.phys.apply_binary(BinOp::Add, &c.phys) {
                    Ok(out) => Ok(
                        Series::Datetime(
                            DatetimeColumn {
                                name: self.name.clone(),
                                unit: self.unit,
                                tz: clone_tz(&c.tz),
                                phys: out,
                            },
                        ),
                    ),
                    Err(e) => Err(e),
                }
            },
            _ => Err(
                ColumnError::UnsupportedOperation {
                    op: BinOp::Add,
                    left: self.dtype(),
                    right: rhs.dtype(),
                },
            ),
        }
    }

    /// duration × integer-like: the right side is promoted to Int64 and the
    /// product keeps the unit. duration × float-like runs through the float
    /// engine. Everything else — durations included — is unsupported.
    pub fn multiply(&self, rhs: &Series) -> (r: Result<ArithOutcome, ColumnError>)
        ensures
            match rhs {
                Series::Int64(c) => {
                    if broadcast_compat(self.phys@, c@) {
                        r matches Ok(o) && o matches ArithOutcome::Done(s) && s matches
                            Series::Duration(d) && d.unit == self.unit && d.name == self.name
                            && kernel_ok(self.phys@, BinOp::Mul, c@, d.phys@)
                    } else {
                        r == Err::<ArithOutcome, ColumnError>(ColumnError::ShapeMismatch)
                    }
                },
                Series::Int32(c) => {
                    if broadcast_compat(self.phys@, widened(c@)) {
                        r matches Ok(o) && o matches ArithOutcome::Done(s) && s matches
                            Series::Duration(d) && d.unit == self.unit && d.name == self.name
                            && kernel_ok(self.phys@, BinOp::Mul, widened(c@), d.phys@)
                    } else {
                        r == Err::<ArithOutcome, ColumnError>(ColumnError::ShapeMismatch)
                    }
                },
                Series::Float64(_) => r == Ok::<ArithOutcome, ColumnError>(
                    ArithOutcome::FloatRoundTrip(self.unit),
                ),
                _ => r == Err::<ArithOutcome, ColumnError>(
                    ColumnError::UnsupportedOperation {
                        op: BinOp::Mul,
                        left: self.dtype_spec(),
                        right: rhs.dtype_spec(),
                    },
                ),
            },
    {
        match rhs {
            Series::Int64(c) => match self.phys.apply_binary(BinOp::Mul, c) {
                Ok(out) => Ok(
                    ArithOutcome::Done(
                        Series::Duration(
                            DurationColumn { name: self.name.clone(), unit: self.unit, phys: out },
                        ),
                    ),
                ),
                Err(e) => Err(e),
            },
            Series::Int32(c) => {
                let wide = widen_i32(&c.values);
                match self.phys.apply_binary(BinOp::Mul, &wide) {
                    Ok(out) => Ok(
                        ArithOutcome::Done(
                            Series::Duration(
                                DurationColumn {
                                    name: self.name.clone(),
                                    unit: self.unit,
                                    phys: out,
                                },
                            ),
                        ),
                    ),
                    Err(e) => Err(e),
                }
            },
            Series::Float64(_) => Ok(ArithOutcome::FloatRoundTrip(self.unit)),
            _ => Err(
                ColumnError::UnsupportedOperation {
                    op: BinOp::Mul,
                    left: self.dtype(),
                    right: rhs.dtype(),
                },
            ),
        }
    }

    /// duration ÷ duration: the unit cancels. With equal units the result is
    /// a plain float column (its payload computed by the float engine; the
    /// null structure and the tag are decided here); with different units the
    /// right side is first cast to the left's dtype. duration ÷ integer-like
    /// divides the counts; duration ÷ float-like runs through the float
    /// engine. Everything else is unsupported.
    pub fn divide(&self, rhs: &Series) -> (r: Result<ArithOutcome, ColumnError>)
        ensures
            match rhs {
                Series::Duration(o) => {
                    let conv = if o.unit == self.unit {
                        o.phys@
                    } else {
                        convert_seq(o.phys@, o.unit, self.unit)
                    };
                    if broadcast_compat(self.phys@, conv) {
                        r matches Ok(out) && out matches ArithOutcome::Done(s) && s matches
                            Series::Float64(f) && f.name == self.name && f.validity@ == valid_and(
                            self.phys@,
                            conv,
                        )
                    } else {
                        r == Err::<ArithOutcome, ColumnError>(ColumnError::ShapeMismatch)
                    }
                },
                Series::Int64(c) => {
                    if broadcast_compat(self.phys@, c@) {
                        r matches Ok(o) && o matches ArithOutcome::Done(s) && s matches
                            Series::Duration(d) && d.unit == self.unit && d.name == self.name
                            && kernel_ok(self.phys@, BinOp::Div, c@, d.phys@)
                    } else {
                        r == Err::<ArithOutcome, ColumnError>(ColumnError::ShapeMismatch)
                    }
                },
                Series::Int32(c) => {
                    if broadcast_compat(self.phys@, widened(c@)) {
                        r matches Ok(o) && o matches ArithOutcome::Done(s) && s matches
                            Series::Duration(d) && d.unit == self.unit && d.name == self.name
                            && kernel_ok(self.phys@, BinOp::Div, widened(c@), d.phys@)
                    } else {
                        r == Err::<ArithOutcome, ColumnError>(ColumnError::ShapeMismatch)
                    }
                },
                Series::Float64(_) => r == Ok::<ArithOutcome, ColumnError>(
                    ArithOutcome::FloatRoundTrip(self.unit),
                ),
                _ => r == Err::<ArithOutcome, ColumnError>(
                    ColumnError::UnsupportedOperation {
                        op: BinOp::Div,
                        left: self.dtype_spec(),
                        right: rhs.dtype_spec(),
                    },
                ),
            },
    {
        match rhs {
            Series::Duration(o) => {
                let conv: Int64Column = if o.unit == self.unit {
                    o.phys.clone_col()
                } else {
                    o.cast_time_unit(self.unit).phys
                };
                match and_validity(&self.phys, &conv) {
                    Ok(v) => Ok(
                        ArithOutcome::Done(
                            Series::Float64(
                                Float64Column { name: self.name.clone(), validity: v },
                            ),
                        ),
                    ),
                    Err(e) => Err(e),
                }
            },
            Series::Int64(c) => match self.phys.apply_binary(BinOp::Div, c) {
                Ok(out) => Ok(
                    ArithOutcome::Done(
                        Series::Duration(
                            DurationColumn { name: self.name.clone(), unit: self.unit, phys: out },
                        ),
                    ),
                ),
                Err(e) => Err(e),
            },
            Series::Int32(c) => {
                let wide = widen_i32(&c.values);
                match self.phys.apply_binary(BinOp::Div, &wide) {
                    Ok(out) => Ok(
                        ArithOutcome::Done(
                            Series::Duration(
                                DurationColumn {
                                    name: self.name.clone(),
                                    unit: self.unit,
                                    phys: out,
                                },
                            ),
                        ),
                    ),
                    Err(e) => Err(e),
                }
            },
            Series::Float64(_) => Ok(ArithOutcome::FloatRoundTrip(self.unit)),
            _ => Err(
                ColumnError::UnsupportedOperation {
                    op: BinOp::Div,
                    left: self.dtype(),
                    right: rhs.dtype(),
                },
            ),
        }
    }

    /// duration % duration: dtype and unit must be identical; the remainder
    /// keeps the shared unit. Any other right-hand dtype is unsupported.
    pub fn remainder(&self, rhs: &Series) -> (r: Result<Series, ColumnError>)
        ensures
            match rhs {
                Series::Duration(o) => {
                    if o.unit == self.unit {
                        if broadcast_compat(self.phys@, o.phys@) {
                            r matches Ok(s) && s matches Series::Duration(d) && d.unit == self.unit
                                && d.name == self.name && kernel_ok(
                                self.phys@,
                                BinOp::Rem,
                                o.phys@,
                                d.phys@,
                            )
                        } else {
                            r == Err::<Series, ColumnError>(ColumnError::ShapeMismatch)
                        }
                    } else {
                        r == Err::<Series, ColumnError>(ColumnError::UnitMismatch)
                    }
                },
                _ => r == Err::<Series, ColumnError>(
                    ColumnError::UnsupportedOperation {
                        op: BinOp::Rem,
                        left: self.dtype_spec(),
                        right: rhs.dtype_spec(),
                    },
                ),
            },
    {
        match rhs {
            Series::Duration(o) => {
                if o.unit != self.unit {
                    return Err(ColumnError::UnitMismatch);
                }
                match self.phys.apply_binary(BinOp::Rem, &o.phys) {
                    Ok(c) => Ok(
                        Series::Duration(
                            DurationColumn { name: self.name.clone(), unit: self.unit, phys: c },
                        ),
                    ),
                    Err(e) => Err(e),
                }
            },
            _ => Err(
                ColumnError::UnsupportedOperation {
                    op: BinOp::Rem,
                    left: self.dtype(),
                    right: rhs.dtype(),
                },
            ),
        }
    }

    /// Finish a float round trip: re-tag the engine's output counts (the
    /// float result, already cast back to Int64 non-strictly) with this
    /// column's unit. Whatever the engine computed, the unit and the name are
    /// decided here.
    pub fn retag_float_result(&self, counts: Int64Column) -> (r: DurationColumn)
        ensures
            r.unit == self.unit,
            r.name == self.name,
            r.phys@ == counts@,
    {
        DurationColumn { name: self.name.clone(), unit: self.unit, phys: counts }
    }
}

} // verus!
