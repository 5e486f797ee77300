//! Reduction re-tagging: scalar and grouped aggregates over a duration
//! column. Integer reductions (sum, min, max) run here, verified end to end.
//! Float reductions (mean, median, std, var, quantile) are the external
//! engine's work: the functions here receive the engine's result, already
//! cast back to a physical count, and decide — and prove — what this core
//! owns: the dtype tag of the result and, for grouped forms, its shape.
use vstd::prelude::*;
use crate::dtypes::{DataType, TimeUnit};
use crate::duration::DurationColumn;
use crate::physical::{gather, idxs_in_bounds, max_val, min_val, sum_val, Int64Column};
use crate::series::Scalar;

verus! {

/// A list-of-duration column: one inner column per group, all sharing the
/// unit. Grouped `agg_list` produces this shape directly, because the element
/// dtype of a nested result cannot be re-tagged after the fact.
#[derive(Debug, PartialEq, Eq)]
pub struct DurationListColumn {
    pub name: String,
    pub unit: TimeUnit,
    pub lists: Vec<Int64Column>,
}

/// Every row index of every group bucket lies inside the column.
pub open spec fn groups_in_bounds(groups: Seq<Vec<usize>>, len: int) -> bool {
    forall|g: int| 0 <= g < groups.len() ==> idxs_in_bounds(#[trigger] groups[g]@, len)
}

impl DurationColumn {
    /// Column-wide sum: exact on the physical counts (nulls skipped, empty
    /// and all-null sum to 0) and tagged with the column's own unit.
    pub fn sum_reduce(&self) -> (r: Scalar)
        ensures
            r.dtype == self.dtype_spec(),
            r.value == Some(sum_val(self.phys@)),
    {
        Scalar { dtype: self.dtype(), value: Some(self.phys.sum()) }
    }

    /// Column-wide minimum: nulls skipped, null when no value remains, the
    /// unit preserved.
    pub fn min_reduce(&self) -> (r: Scalar)
        ensures
            r.dtype == self.dtype_spec(),
            r.value == min_val(self.phys@),
    {
        Scalar { dtype: self.dtype(), value: self.phys.min() }
    }

    /// Column-wide maximum: nulls skipped, null when no value remains, the
    /// unit preserved.
    pub fn max_reduce(&self) -> (r: Scalar)
        ensures
            r.dtype == self.dtype_spec(),
            r.value == max_val(self.phys@),
    {
        Scalar { dtype: self.dtype(), value: self.phys.max() }
    }

    /// Re-tag the engine's standard deviation of this column's counts (the
    /// caller picks the degrees of freedom; the float result arrives already
    /// cast back to a physical count). The original unit is preserved.
    pub fn std_reduce(&self, reduced: Option<i64>) -> (r: Scalar)
        ensures
            r.dtype == self.dtype_spec(),
            r.value == reduced,
    {
        Scalar { dtype: self.dtype(), value: reduced }
    }

    /// Re-tag the engine's variance. The engine is handed
    /// `self.cast_time_unit(TimeUnit::Milliseconds)`, and the result is
    /// tagged Milliseconds whatever the column's unit was: variance reduction
    /// goes through Milliseconds unconditionally, unlike mean and std, which
    /// keep the original unit.
    pub fn var_reduce(&self, reduced: Option<i64>) -> (r: Scalar)
        ensures
            r.dtype == DataType::Duration(TimeUnit::Milliseconds),
            r.value == reduced,
    {
        Scalar { dtype: DataType::Duration(TimeUnit::Milliseconds), value: reduced }
    }

    /// Re-tag the engine's median (its float result truncated to a count).
    /// The original unit is preserved.
    pub fn median_reduce(&self, reduced: Option<i64>) -> (r: Scalar)
        ensures
            r.dtype == self.dtype_spec(),
            r.value == reduced,
    {
        Scalar { dtype: self.dtype(), value: reduced }
    }

    /// Re-tag the engine's quantile (the quantile point and interpolation
    /// method are the engine's inputs; the result arrives cast back to a
    /// count). The original unit is preserved.
    pub fn quantile_reduce(&self, reduced: Option<i64>) -> (r: Scalar)
        ensures
            r.dtype == self.dtype_spec(),
            r.value == reduced,
    {
        Scalar { dtype: self.dtype(), value: reduced }
    }

    /// Per-group minimum over externally supplied row buckets; the unit is
    /// preserved on every group.
    pub fn agg_min(&self, groups: &Vec<Vec<usize>>) -> (r: DurationColumn)
        requires
            groups_in_bounds(groups@, self.phys@.len() as int),
        ensures
            r.unit == self.unit,
            r.name == self.name,
            r.phys@.len() == groups@.len(),
            forall|g: int|
                0 <= g < groups@.len() ==> r.phys@[g] == min_val(
                    gather(self.phys@, #[trigger] groups@[g]@),
                ),
    {
        let n = groups.len();
        let mut out: Vec<Option<i64>> = Vec::new();
        let mut g: usize = 0;
        while g < n
            invariant
                g <= n,
                n == groups@.len(),
                groups_in_bounds(groups@, self.phys@.len() as int),
                out@.len() == g,
                forall|h: int|
                    0 <= h < g ==> out@[h] == min_val(gather(self.phys@, #[trigger] groups@[h]@)),
            decreases n - g,
        {
            let taken = match self.phys.take(&groups[g]) {
                Ok(c) => c,
                Err(_) => {
                    proof {
                        assert(false);
                    }
                    Int64Column { values: Vec::new() }
                },
            };
            out.push(taken.min());
            g += 1;
        }
        DurationColumn {
            name: self.name.clone(),
            unit: self.unit,
            phys: Int64Column { values: out },
        }
    }

    /// Per-group maximum; the unit is preserved on every group.
    pub fn agg_max(&self, groups: &Vec<Vec<usize>>) -> (r: DurationColumn)
        requires
            groups_in_bounds(groups@, self.phys@.len() as int),
        ensures
            r.unit == self.unit,
            r.name == self.name,
            r.phys@.len() == groups@.len(),
            forall|g: int|
                0 <= g < groups@.len() ==> r.phys@[g] == max_val(
                    gather(self.phys@, #[trigger] groups@[g]@),
                ),
    {
        let n = groups.len();
        let mut out: Vec<Option<i64>> = Vec::new();
        let mut g: usize = 0;
        while g < n
            invariant
                g <= n,
                n == groups@.len(),
                groups_in_bounds(groups@, self.phys@.len() as int),
                out@.len() == g,
                forall|h: int|
                    0 <= h < g ==> out@[h] == max_val(gather(self.phys@, #[trigger] groups@[h]@)),
            decreases n - g,
        {
            let taken = match self.phys.take(&groups[g]) {
                Ok(c) => c,
                Err(_) => {
                    proof {
                        assert(false);
                    }
                    Int64Column { values: Vec::new() }
                },
            };
            out.push(taken.max());
            g += 1;
        }
        DurationColumn {
            name: self.name.clone(),
            unit: self.unit,
            phys: Int64Column { values: out },
        }
    }

    /// Per-group wrapping sum (nulls skipped, empty groups sum to 0); the
    /// unit is preserved on every group.
    pub fn agg_sum(&self, groups: &Vec<Vec<usize>>) -> (r: DurationColumn)
        requires
            groups_in_bounds(groups@, self.phys@.len() as int),
        ensures
            r.unit == self.unit,
            r.name == self.name,
            r.phys@.len() == groups@.len(),
            forall|g: int|
                0 <= g < groups@.len() ==> r.phys@[g] == Some(
                    sum_val(gather(self.phys@, #[trigger] groups@[g]@)),
                ),
    {
        let n = groups.len();
        let mut out: Vec<Option<i64>> = Vec::new();
        let mut g: usize = 0;
        while g < n
            invariant
                g <= n,
                n == groups@.len(),
                groups_in_bounds(groups@, self.phys@.len() as int),
                out@.len() == g,
                forall|h: int|
                    0 <= h < g ==> out@[h] == Some(
                        sum_val(gather(self.phys@, #[trigger] groups@[h]@)),
                    ),
            decreases n - g,
        {
            let taken = match self.phys.take(&groups[g]) {
                Ok(c) => c,
                Err(_) => {
                    proof {
                        assert(false);
                    }
                    Int64Column { values: Vec::new() }
                },
            };
            out.push(Some(taken.sum()));
            g += 1;
        }
        DurationColumn {
            name: self.name.clone(),
            unit: self.unit,
            phys: Int64Column { values: out },
        }
    }

    /// Re-tag the engine's per-group standard deviations (computed on the
    /// float projection, cast back to counts): one count per group, the
    /// column's unit preserved.
    pub fn agg_std(&self, reduced: Int64Column) -> (r: DurationColumn)
        ensures
            r.unit == self.unit,
            r.name == self.name,
            r.phys@ == reduced@,
    {
        DurationColumn { name: self.name.clone(), unit: self.unit, phys: reduced }
    }

    /// Re-tag the engine's per-group variances; like `agg_std` the column's
    /// unit is preserved (the Milliseconds detour belongs to `var_reduce`
    /// alone).
    pub fn agg_var(&self, reduced: Int64Column) -> (r: DurationColumn)
        ensures
            r.unit == self.unit,
            r.name == self.name,
            r.phys@ == reduced@,
    {
        DurationColumn { name: self.name.clone(), unit: self.unit, phys: reduced }
    }

    /// Gather each group's values into one inner column: the list-of-duration
    /// aggregate, its element dtype fixed at construction.
    pub fn agg_list(&self, groups: &Vec<Vec<usize>>) -> (r: DurationListColumn)
        requires
            groups_in_bounds(groups@, self.phys@.len() as int),
        ensures
            r.unit == self.unit,
            r.name == self.name,
            r.lists@.len() == groups@.len(),
            forall|g: int|
                0 <= g < groups@.len() ==> r.lists@[g]@ == gather(
                    self.phys@,
                    #[trigger] groups@[g]@,
                ),
    {
        let n = groups.len();
        let mut lists: Vec<Int64Column> = Vec::new();
        let mut g: usize = 0;
        while g < n
            invariant
                g <= n,
                n == groups@.len(),
                groups_in_bounds(groups@, self.phys@.len() as int),
                lists@.len() == g,
                forall|h: int|
                    0 <= h < g ==> lists@[h]@ == gather(self.phys@, #[trigger] groups@[h]@),
            decreases n - g,
        {
            let taken = match self.phys.take(&groups[g]) {
                Ok(c) => c,
                Err(_) => {
                    proof {
                        assert(false);
                    }
                    Int64Column { values: Vec::new() }
                },
            };
            lists.push(taken);
            g += 1;
        }
        DurationListColumn { name: self.name.clone(), unit: self.unit, lists }
    }
}

} // verus!
