//! The tagged column types the dispatcher operates on, and the scalar type
//! that reductions return.
use vstd::prelude::*;
use crate::dtypes::{DataType, TimeUnit};
use crate::duration::DurationColumn;
use crate::physical::Int64Column;

verus! {

/// A nullable 32-bit integer column: the representative "integer-like"
/// right-hand operand, promoted to Int64 before the kernel runs.
#[derive(Debug, PartialEq, Eq)]
pub struct Int32Column {
    pub values: Vec<Option<i32>>,
}

impl View for Int32Column {
    type V = Seq<Option<i32>>;

    open spec fn view(&self) -> Seq<Option<i32>> {
        self.values@
    }
}

/// A date column: a nullable day count per element.
#[derive(Debug, PartialEq, Eq)]
pub struct DateColumn {
    pub name: String,
    pub values: Vec<Option<i32>>,
}

/// A datetime column: physical counts in `unit` since the epoch, with an
/// optional time zone name that operations carry through unchanged.
#[derive(Debug, PartialEq, Eq)]
pub struct DatetimeColumn {
    pub name: String,
    pub unit: TimeUnit,
    pub tz: Option<String>,
    pub phys: Int64Column,
}

/// A float64-tagged column as this core sees it. Its numeric payload is
/// computed and held by the external float engine; the verified core tracks
/// the tag, the length and the null structure, which is all the duration
/// rules decide.
#[derive(Debug, PartialEq, Eq)]
pub struct Float64Column {
    pub name: String,
    pub validity: Vec<bool>,
}

impl Float64Column {
    pub fn len(&self) -> (r: usize)
        ensures
            r == self.validity@.len(),
    {
        self.validity.len()
    }
}

/// One column with its logical dtype tag: the dispatcher's operand and
/// result type.
#[derive(Debug, PartialEq, Eq)]
pub enum Series {
    Int32(Int32Column),
    Int64(Int64Column),
    Float64(Float64Column),
    Date(DateColumn),
    Datetime(DatetimeColumn),
    Duration(DurationColumn),
}

/// An `Option<String>` copy whose result is the same value, so that contracts
/// can speak of carried-through time zones exactly.
pub fn clone_tz(tz: &Option<String>) -> (r: Option<String>)
    ensures
        r == *tz,
{
    match tz {
        Some(s) => Some(s.clone()),
        None => None,
    }
}

impl Series {
    pub open spec fn dtype_spec(&self) -> DataType {
        match self {
            Series::Int32(_) => DataType::Int32,
            Series::Int64(_) => DataType::Int64,
            Series::Float64(_) => DataType::Float64,
            Series::Date(_) => DataType::Date,
            Series::Datetime(c) => DataType::Datetime(c.unit, c.tz),
            Series::Duration(c) => DataType::Duration(c.unit),
        }
    }

    pub fn dtype(&self) -> (r: DataType)
        ensures
            r == self.dtype_spec(),
    {
        match self {
            Series::Int32(_) => DataType::Int32,
            Series::Int64(_) => DataType::Int64,
            Series::Float64(_) => DataType::Float64,
            Series::Date(_) => DataType::Date,
            Series::Datetime(c) => DataType::Datetime(c.unit, clone_tz(&c.tz)),
            Series::Duration(c) => DataType::Duration(c.unit),
        }
    }
}

/// A scalar reduction result: a physical count (or null) tagged with the
/// dtype the reduction rules chose.
#[derive(Debug, PartialEq, Eq)]
pub struct Scalar {
    pub dtype: DataType,
    pub value: Option<i64>,
}

} // verus!
