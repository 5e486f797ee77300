//! The duration column: one physical Int64 column tagged with a single time
//! unit. Structural operations run on the physical column and keep the unit;
//! only casts change it.
use vstd::prelude::*;
use crate::dtypes::{nanos_per_tick, DataType, TimeUnit};
use crate::errors::ColumnError;
use crate::physical::{
    common_len, div_wrap, filter_val, first_occurrence_idxs, gather, idxs_in_bounds,
    mismatch_idxs, null_count_val, sort_before, spec_slice_end, spec_slice_start, shift_val,
    Int64Column,
};
use crate::series::Series;

verus! {

/// A duration column: a tagged view over a physical Int64 column. Every
/// element shares the one unit; binary operations require equal units rather
/// than coercing silently.
#[derive(Debug, PartialEq, Eq)]
pub struct DurationColumn {
    pub name: String,
    pub unit: TimeUnit,
    pub phys: Int64Column,
}

/// Conversion factor between two units (1 between a unit and itself).
pub open spec fn unit_factor(from: TimeUnit, to: TimeUnit) -> i64 {
    match (from, to) {
        (TimeUnit::Milliseconds, TimeUnit::Nanoseconds) => 1_000_000,
        (TimeUnit::Nanoseconds, TimeUnit::Milliseconds) => 1_000_000,
        (TimeUnit::Milliseconds, TimeUnit::Microseconds) => 1_000,
        (TimeUnit::Microseconds, TimeUnit::Milliseconds) => 1_000,
        (TimeUnit::Microseconds, TimeUnit::Nanoseconds) => 1_000,
        (TimeUnit::Nanoseconds, TimeUnit::Microseconds) => 1_000,
        _ => 1,
    }
}

/// One count converted between units: toward a finer unit the count is
/// multiplied (wrapping), toward a coarser one it is divided, truncating
/// toward zero.
pub open spec fn convert_one(x: i64, from: TimeUnit, to: TimeUnit) -> i64 {
    if nanos_per_tick(from) >= nanos_per_tick(to) {
        x.wrapping_mul(unit_factor(from, to))
    } else {
        div_wrap(x, unit_factor(from, to))
    }
}

/// Unit conversion of one nullable count: nulls stay null.
pub open spec fn convert_count(v: Option<i64>, from: TimeUnit, to: TimeUnit) -> Option<i64> {
    match v {
        Some(x) => Some(convert_one(x, from, to)),
        None => None,
    }
}

pub open spec fn convert_seq(s: Seq<Option<i64>>, from: TimeUnit, to: TimeUnit) -> Seq<
    Option<i64>,
> {
    s.map_values(|v: Option<i64>| convert_count(v, from, to))
}

impl DurationColumn {
    pub open spec fn dtype_spec(&self) -> DataType {
        DataType::Duration(self.unit)
    }

    /// Tag a physical column as a duration column: the reinterpreting
    /// direction of the physical round trip.
    pub fn from_physical(name: String, unit: TimeUnit, phys: Int64Column) -> (r: DurationColumn)
        ensures
            r.name == name,
            r.unit == unit,
            r.phys == phys,
    {
        DurationColumn { name, unit, phys }
    }

    pub fn dtype(&self) -> (r: DataType)
        ensures
            r == self.dtype_spec(),
    {
        DataType::Duration(self.unit)
    }

    pub fn name(&self) -> (r: &String)
        ensures
            r == self.name,
    {
        &self.name
    }

    pub fn rename(&mut self, name: String)
        ensures
            final(self).name == name,
            final(self).unit == old(self).unit,
            final(self).phys == old(self).phys,
    {
        self.name = name;
    }

    pub fn len(&self) -> (r: usize)
        ensures
            r == self.phys@.len(),
    {
        self.phys.len()
    }

    pub fn get(&self, i: usize) -> (r: Option<i64>)
        requires
            i < self.phys@.len(),
        ensures
            r == self.phys@[i as int],
    {
        self.phys.get(i)
    }

    pub fn null_count(&self) -> (r: usize)
        ensures
            r == null_count_val(self.phys@),
    {
        self.phys.null_count()
    }

    pub fn has_nulls(&self) -> (r: bool)
        ensures
            r == exists|i: int| 0 <= i < self.phys@.len() && self.phys@[i] is None,
    {
        self.phys.has_nulls()
    }

    pub fn is_null(&self) -> (r: Vec<bool>)
        ensures
            r@.len() == self.phys@.len(),
            forall|i: int| 0 <= i < r@.len() ==> r@[i] == (self.phys@[i] is None),
    {
        self.phys.null_mask()
    }

    pub fn is_not_null(&self) -> (r: Vec<bool>)
        ensures
            r@.len() == self.phys@.len(),
            forall|i: int| 0 <= i < r@.len() ==> r@[i] == (self.phys@[i] is Some),
    {
        self.phys.valid_mask()
    }

    /// A copy sharing nothing, equal in name, unit and values.
    pub fn clone_inner(&self) -> (r: DurationColumn)
        ensures
            r.name == self.name,
            r.unit == self.unit,
            r.phys@ == self.phys@,
    {
        DurationColumn { name: self.name.clone(), unit: self.unit, phys: self.phys.clone_col() }
    }

    /// Convert the counts to another unit; the values scale, nulls stay.
    pub fn cast_time_unit(&self, to: TimeUnit) -> (r: DurationColumn)
        ensures
            r.unit == to,
            r.name == self.name,
            r.phys@ == convert_seq(self.phys@, self.unit, to),
    {
        let from = self.unit;
        let up: bool = match (from, to) {
            (TimeUnit::Milliseconds, TimeUnit::Microseconds) => true,
            (TimeUnit::Milliseconds, TimeUnit::Nanoseconds) => true,
            (TimeUnit::Microseconds, TimeUnit::Nanoseconds) => true,
            (TimeUnit::Microseconds, TimeUnit::Milliseconds) => false,
            (TimeUnit::Nanoseconds, TimeUnit::Milliseconds) => false,
            (TimeUnit::Nanoseconds, TimeUnit::Microseconds) => false,
            _ => true,
        };
        let k: i64 = match (from, to) {
            (TimeUnit::Milliseconds, TimeUnit::Nanoseconds) => 1_000_000,
            (TimeUnit::Nanoseconds, TimeUnit::Milliseconds) => 1_000_000,
            (TimeUnit::Milliseconds, TimeUnit::Microseconds) => 1_000,
            (TimeUnit::Microseconds, TimeUnit::Milliseconds) => 1_000,
            (TimeUnit::Microseconds, TimeUnit::Nanoseconds) => 1_000,
            (TimeUnit::Nanoseconds, TimeUnit::Microseconds) => 1_000,
            _ => 1,
        };
        let n = self.phys.len();
        let mut out: Vec<Option<i64>> = Vec::new();
        let mut i: usize = 0;
        while i < n
            invariant
                i <= n,
                n == self.phys@.len(),
                out@.len() == i,
                k == unit_factor(from, to),
                k != 0,
                up == (nanos_per_tick(from) >= nanos_per_tick(to)),
                forall|j: int| 0 <= j < i ==> out@[j] == convert_count(self.phys@[j], from, to),
            decreases n - i,
        {
            let v: Option<i64> = match self.phys.get(i) {
                Some(x) => Some(
                    if up {
                        x.wrapping_mul(k)
                    } else {
                        crate::physical::div_by_nonzero(x, k)
                    },
                ),
                None => None,
            };
            out.push(v);
            i += 1;
        }
        proof {
            assert(out@ =~= convert_seq(self.phys@, from, to));
        }
        DurationColumn { name: self.name.clone(), unit: to, phys: Int64Column { values: out } }
    }

    /// A contiguous copy. This model keeps one buffer, so the result equals
    /// the column element for element; the unit never changes.
    pub fn rechunk(&self) -> (r: DurationColumn)
        ensures
            r.unit == self.unit,
            r.name == self.name,
            r.phys@ == self.phys@,
    {
        self.clone_inner()
    }

    /// Cast to a dtype this core dispatches: the physical Int64 form, or a
    /// duration dtype (a unit conversion). Anything else is the generic cast
    /// machinery's business and is refused here.
    pub fn cast(&self, dtype: &DataType) -> (r: Result<Series, ColumnError>)
        ensures
            *dtype == DataType::Int64 ==> (r matches Ok(s) && s matches Series::Int64(c) && c@
                == self.phys@),
            *dtype matches DataType::Duration(u) ==> (r matches Ok(s) && s matches
                Series::Duration(d) && d.unit == u && d.name == self.name && d.phys@
                == convert_seq(self.phys@, self.unit, u)),
            !(*dtype == DataType::Int64 || *dtype matches DataType::Duration(_)) ==> r == Err::<
                Series,
                ColumnError,
            >(ColumnError::CastFailure),
    {
        match dtype {
            DataType::Int64 => Ok(Series::Int64(self.phys.clone_col())),
            DataType::Duration(u) => Ok(Series::Duration(self.cast_time_unit(*u))),
            _ => Err(ColumnError::CastFailure),
        }
    }

    pub fn slice(&self, offset: i64, length: usize) -> (r: DurationColumn)
        ensures
            r.unit == self.unit,
            r.name == self.name,
            r.phys@ == self.phys@.subrange(
                spec_slice_start(offset as int, self.phys@.len() as int),
                spec_slice_end(offset as int, length as int, self.phys@.len() as int),
            ),
    {
        DurationColumn {
            name: self.name.clone(),
            unit: self.unit,
            phys: self.phys.slice(offset, length),
        }
    }

    pub fn split_at(&self, offset: i64) -> (r: (DurationColumn, DurationColumn))
        ensures
            r.0.unit == self.unit && r.1.unit == self.unit,
            r.0.name == self.name && r.1.name == self.name,
            r.0.phys@ == self.phys@.subrange(
                0,
                spec_slice_start(offset as int, self.phys@.len() as int),
            ),
            r.1.phys@ == self.phys@.subrange(
                spec_slice_start(offset as int, self.phys@.len() as int),
                self.phys@.len() as int,
            ),
    {
        let (head, tail) = self.phys.split_at(offset);
        (
            DurationColumn { name: self.name.clone(), unit: self.unit, phys: head },
            DurationColumn { name: self.name.clone(), unit: self.unit, phys: tail },
        )
    }

    pub fn filter(&self, mask: &Vec<bool>) -> (r: Result<DurationColumn, ColumnError>)
        ensures
            mask@.len() == self.phys@.len() ==> (r matches Ok(d) && d.unit == self.unit && d.name
                == self.name && d.phys@ == filter_val(self.phys@, mask@)),
            mask@.len() != self.phys@.len() ==> r == Err::<DurationColumn, ColumnError>(
                ColumnError::ShapeMismatch,
            ),
    {
        match self.phys.filter(mask) {
            Ok(c) => Ok(
                DurationColumn { name: self.name.clone(), unit: self.unit, phys: c },
            ),
            Err(e) => Err(e),
        }
    }

    pub fn take(&self, indices: &Vec<usize>) -> (r: Result<DurationColumn, ColumnError>)
        ensures
            idxs_in_bounds(indices@, self.phys@.len() as int) ==> (r matches Ok(d) && d.unit
                == self.unit && d.name == self.name && d.phys@ == gather(self.phys@, indices@)),
            !idxs_in_bounds(indices@, self.phys@.len() as int) ==> r == Err::<
                DurationColumn,
                ColumnError,
            >(ColumnError::IndexOutOfBounds),
    {
        match self.phys.take(indices) {
            Ok(c) => Ok(
                DurationColumn { name: self.name.clone(), unit: self.unit, phys: c },
            ),
            Err(e) => Err(e),
        }
    }

    pub fn reverse(&self) -> (r: DurationColumn)
        ensures
            r.unit == self.unit,
            r.name == self.name,
            r.phys@.len() == self.phys@.len(),
            forall|i: int|
                0 <= i < r.phys@.len() ==> r.phys@[i] == self.phys@[self.phys@.len() - 1 - i],
    {
        DurationColumn { name: self.name.clone(), unit: self.unit, phys: self.phys.reverse() }
    }

    pub fn shift(&self, periods: i64) -> (r: DurationColumn)
        ensures
            r.unit == self.unit,
            r.name == self.name,
            r.phys@.len() == self.phys@.len(),
            forall|i: int|
                0 <= i < r.phys@.len() ==> r.phys@[i] == shift_val(self.phys@, periods as int, i),
    {
        DurationColumn { name: self.name.clone(), unit: self.unit, phys: self.phys.shift(periods) }
    }

    pub fn new_from_index(&self, index: usize, length: usize) -> (r: DurationColumn)
        requires
            index < self.phys@.len(),
        ensures
            r.unit == self.unit,
            r.name == self.name,
            r.phys@.len() == length,
            forall|i: int| 0 <= i < r.phys@.len() ==> r.phys@[i] == self.phys@[index as int],
    {
        DurationColumn {
            name: self.name.clone(),
            unit: self.unit,
            phys: self.phys.new_from_index(index, length),
        }
    }

    /// Where the mask is true take from `self`, else from `other`; a null
    /// mask entry gives null. The result keeps `self`'s unit, as the other
    /// column carries the same dtype.
    pub fn zip_with_same_type(&self, mask: &Vec<Option<bool>>, other: &DurationColumn) -> (r:
        Result<DurationColumn, ColumnError>)
        ensures
            (mask@.len() == self.phys@.len() && other.phys@.len() == self.phys@.len()) ==> (
            r matches Ok(d) && d.unit == self.unit && d.name == self.name && d.phys@.len()
                == self.phys@.len() && forall|i: int|
                0 <= i < d.phys@.len() ==> d.phys@[i] == (match mask@[i] {
                    Some(true) => self.phys@[i],
                    Some(false) => other.phys@[i],
                    None => None,
                })),
            !(mask@.len() == self.phys@.len() && other.phys@.len() == self.phys@.len()) ==> r
                == Err::<DurationColumn, ColumnError>(ColumnError::ShapeMismatch),
    {
        match self.phys.zip_with(mask, &other.phys) {
            Ok(c) => Ok(
                DurationColumn { name: self.name.clone(), unit: self.unit, phys: c },
            ),
            Err(e) => Err(e),
        }
    }

    /// The distinct values, each once, with the unit kept; no order is
    /// promised, as the engine promises none.
    pub fn unique(&self) -> (r: DurationColumn)
        ensures
            r.unit == self.unit,
            r.name == self.name,
            forall|v: Option<i64>| r.phys@.contains(v) <==> self.phys@.contains(v),
            forall|i: int, j: int| 0 <= i < j < r.phys@.len() ==> r.phys@[i] != r.phys@[j],
    {
        DurationColumn { name: self.name.clone(), unit: self.unit, phys: self.phys.unique() }
    }

    /// The number of distinct values (null counts as one value).
    pub fn n_unique(&self) -> (r: usize)
        ensures
            r == self.phys@.to_set().len(),
    {
        let u = self.phys.unique();
        proof {
            assert(u@.no_duplicates());
            u@.unique_seq_to_set();
            assert(u@.to_set() =~= self.phys@.to_set());
        }
        u.values.len()
    }

    /// Sort the counts (nulls first unless `nulls_last`, ascending unless
    /// `descending`): a permutation of the column, re-tagged with the
    /// unchanged unit.
    pub fn sort_with(&self, descending: bool, nulls_last: bool) -> (r: DurationColumn)
        ensures
            r.unit == self.unit,
            r.name == self.name,
            r.phys@.len() == self.phys@.len(),
            r.phys@.to_multiset() == self.phys@.to_multiset(),
            forall|i: int, j: int|
                0 <= i < j < r.phys@.len() ==> sort_before(
                    r.phys@[i],
                    r.phys@[j],
                    descending,
                    nulls_last,
                ),
    {
        DurationColumn {
            name: self.name.clone(),
            unit: self.unit,
            phys: self.phys.sort_with(descending, nulls_last),
        }
    }

    /// Append to `idxs` each position, in ascending order, where exactly one
    /// of the two columns is null.
    pub fn find_validity_mismatch(&self, other: &DurationColumn, idxs: &mut Vec<usize>)
        ensures
            final(idxs)@ == old(idxs)@ + mismatch_idxs(
                self.phys@,
                other.phys@,
                common_len(self.phys@, other.phys@),
            ),
    {
        self.phys.find_validity_mismatch(&other.phys, idxs);
    }

    /// The positions of the first occurrence of each distinct value, in
    /// ascending order.
    pub fn arg_unique(&self) -> (r: Vec<usize>)
        ensures
            r@ == first_occurrence_idxs(self.phys@, self.phys@.len() as nat),
    {
        self.phys.arg_unique()
    }

    /// Append a column of the same dtype (unit included) in place; a unit
    /// mismatch changes nothing and reports the dtype mismatch.
    pub fn append(&mut self, other: &DurationColumn) -> (r: Result<(), ColumnError>)
        ensures
            old(self).unit == other.unit ==> r == Ok::<(), ColumnError>(()) && final(self).phys@
                == old(self).phys@ + other.phys@,
            old(self).unit != other.unit ==> r == Err::<(), ColumnError>(ColumnError::DtypeMismatch)
                && final(self).phys@ == old(self).phys@,
            final(self).unit == old(self).unit,
            final(self).name == old(self).name,
    {
        if self.unit != other.unit {
            return Err(ColumnError::DtypeMismatch);
        }
        self.phys.append_values(&other.phys);
        Ok(())
    }

    /// `append` taking the other column by value.
    pub fn append_owned(&mut self, other: DurationColumn) -> (r: Result<(), ColumnError>)
        ensures
            old(self).unit == other.unit ==> r == Ok::<(), ColumnError>(()) && final(self).phys@
                == old(self).phys@ + other.phys@,
            old(self).unit != other.unit ==> r == Err::<(), ColumnError>(ColumnError::DtypeMismatch)
                && final(self).phys@ == old(self).phys@,
            final(self).unit == old(self).unit,
            final(self).name == old(self).name,
    {
        if self.unit != other.unit {
            return Err(ColumnError::DtypeMismatch);
        }
        self.phys.append_values(&other.phys);
        Ok(())
    }

    /// In this single-buffer model extending is appending; the dtype check is
    /// the same.
    pub fn extend(&mut self, other: &DurationColumn) -> (r: Result<(), ColumnError>)
        ensures
            old(self).unit == other.unit ==> r == Ok::<(), ColumnError>(()) && final(self).phys@
                == old(self).phys@ + other.phys@,
            old(self).unit != other.unit ==> r == Err::<(), ColumnError>(ColumnError::DtypeMismatch)
                && final(self).phys@ == old(self).phys@,
            final(self).unit == old(self).unit,
            final(self).name == old(self).name,
    {
        self.append(other)
    }
}

} // verus!
