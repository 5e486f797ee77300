use vstd::prelude::*;
use crate::dtypes::DataType;

verus! {

/// Arithmetic operator selecting a physical kernel; also names the operator
/// in diagnostics.
#[derive(Clone, Copy, Debug, PartialEq, Eq, Structural)]
pub enum BinOp {
    Add,
    Sub,
    Mul,
    Div,
    Rem,
}

/// Typed failures surfaced by duration operations. No operation swallows one
/// of these and substitutes a default; callers see exactly which rule broke.
#[derive(Clone, Debug, PartialEq, Eq)]
pub enum ColumnError {
    /// Both operands are durations (or a duration and a datetime) whose time
    /// units differ where the operation requires them to be equal.
    UnitMismatch,
    /// The right-hand dtype is not one the operator recognises; carries the
    /// operator and both dtypes for diagnostics.
    UnsupportedOperation { op: BinOp, left: DataType, right: DataType },
    /// A cast this core does not dispatch was requested.
    CastFailure,
    /// append/extend between columns whose dtypes (unit included) differ.
    DtypeMismatch,
    /// The physical kernel was handed columns of incompatible lengths.
    ShapeMismatch,
    /// A gather index lies beyond the column's length.
    IndexOutOfBounds,
}

} // verus!
