use duration_column::arithmetic::ArithOutcome;
use duration_column::dtypes::{DataType, TimeUnit};
use duration_column::duration::DurationColumn;
use duration_column::errors::{BinOp, ColumnError};
use duration_column::physical::Int64Column;
use duration_column::series::{DateColumn, DatetimeColumn, Float64Column, Int32Column, Series};

fn dur(name: &str, unit: TimeUnit, values: Vec<Option<i64>>) -> DurationColumn {
    DurationColumn {
        name: name.to_string(),
        unit,
        phys: Int64Column { values },
    }
}

#[test]
fn subtract_same_unit() {
    let a = dur("a", TimeUnit::Milliseconds, vec![Some(10), Some(20), None]);
    let b = dur("b", TimeUnit::Milliseconds, vec![Some(1), None, Some(7)]);
    let r = a.subtract(&Series::Duration(b)).unwrap();
    match r {
        Series::Duration(d) => {
            assert_eq!(d.unit, TimeUnit::Milliseconds);
            assert_eq!(d.name, "a");
            assert_eq!(d.phys.values, vec![Some(9), None, None]);
        }
        _ => panic!("expected a duration column"),
    }
}

#[test]
fn subtract_unit_mismatch_fails() {
    let a = dur("a", TimeUnit::Milliseconds, vec![Some(10)]);
    let b = dur("b", TimeUnit::Nanoseconds, vec![Some(1)]);
    let r = a.subtract(&Series::Duration(b));
    assert_eq!(r, Err(ColumnError::UnitMismatch));
}

#[test]
fn subtract_unsupported_dtype() {
    let a = dur("a", TimeUnit::Milliseconds, vec![Some(10)]);
    let dates = Series::Date(DateColumn {
        name: "d".to_string(),
        values: vec![Some(1)],
    });
    let r = a.subtract(&dates);
    assert_eq!(
        r,
        Err(ColumnError::UnsupportedOperation {
            op: BinOp::Sub,
            left: DataType::Duration(TimeUnit::Milliseconds),
            right: DataType::Date,
        })
    );
}

#[test]
fn subtract_shape_mismatch() {
    let a = dur("a", TimeUnit::Milliseconds, vec![Some(10), Some(20)]);
    let b = dur("b", TimeUnit::Milliseconds, vec![Some(1), Some(2), Some(3)]);
    let r = a.subtract(&Series::Duration(b));
    assert_eq!(r, Err(ColumnError::ShapeMismatch));
}

#[test]
fn add_same_unit() {
    let a = dur("a", TimeUnit::Microseconds, vec![Some(10), None]);
    let b = dur("b", TimeUnit::Microseconds, vec![Some(5), Some(5)]);
    let r = a.add_to(&Series::Duration(b)).unwrap();
    match r {
        Series::Duration(d) => {
            assert_eq!(d.unit, TimeUnit::Microseconds);
            assert_eq!(d.phys.values, vec![Some(15), None]);
        }
        _ => panic!("expected a duration column"),
    }
}

#[test]
fn add_unit_mismatch_fails() {
    let a = dur("a", TimeUnit::Microseconds, vec![Some(10)]);
    let b = dur("b", TimeUnit::Milliseconds, vec![Some(5)]);
    let r = a.add_to(&Series::Duration(b));
    assert_eq!(r, Err(ColumnError::UnitMismatch));
}

#[test]
fn add_one_day_to_date_advances_one_day() {
    let a = dur("a", TimeUnit::Milliseconds, vec![Some(86_400_000)]);
    let dates = Series::Date(DateColumn {
        name: "d".to_string(),
        values: vec![Some(19_000)],
    });
    let r = a.add_to(&dates).unwrap();
    match r {
        Series::Date(out) => assert_eq!(out.values, vec![Some(19_001)]),
        _ => panic!("expected a date column"),
    }
}

#[test]
fn add_half_day_to_date_truncates_to_zero_days() {
    let a = dur("a", TimeUnit::Milliseconds, vec![Some(43_200_000)]);
    let dates = Series::Date(DateColumn {
        name: "d".to_string(),
        values: vec![Some(19_000)],
    });
    let r = a.add_to(&dates).unwrap();
    match r {
        Series::Date(out) => assert_eq!(out.values, vec![Some(19_000)]),
        _ => panic!("expected a date column"),
    }
}

#[test]
fn add_to_date_in_microseconds_and_nanoseconds() {
    let a = dur("a", TimeUnit::Microseconds, vec![Some(86_400_000_000)]);
    let dates = Series::Date(DateColumn {
        name: "d".to_string(),
        values: vec![Some(0)],
    });
    match a.add_to(&dates).unwrap() {
        Series::Date(out) => assert_eq!(out.values, vec![Some(1)]),
        _ => panic!("expected a date column"),
    }
    let b = dur("b", TimeUnit::Nanoseconds, vec![Some(86_400_000_000_000), None]);
    let dates2 = Series::Date(DateColumn {
        name: "d".to_string(),
        values: vec![Some(3), Some(3)],
    });
    match b.add_to(&dates2).unwrap() {
        Series::Date(out) => assert_eq!(out.values, vec![Some(4), None]),
        _ => panic!("expected a date column"),
    }
}

#[test]
fn add_to_datetime_same_unit_keeps_timezone() {
    let a = dur("a", TimeUnit::Milliseconds, vec![Some(1_000), None]);
    let dt = Series::Datetime(DatetimeColumn {
        name: "t".to_string(),
        unit: TimeUnit::Milliseconds,
        tz: Some("UTC".to_string()),
        phys: Int64Column {
            values: vec![Some(5_000), Some(5_000)],
        },
    });
    match a.add_to(&dt).unwrap() {
        Series::Datetime(out) => {
            assert_eq!(out.unit, TimeUnit::Milliseconds);
            assert_eq!(out.tz, Some("UTC".to_string()));
            assert_eq!(out.phys.values, vec![Some(6_000), None]);
        }
        _ => panic!("expected a datetime column"),
    }
}

#[test]
fn add_to_datetime_unit_mismatch_fails() {
    let a = dur("a", TimeUnit::Milliseconds, vec![Some(1_000)]);
    let dt = Series::Datetime(DatetimeColumn {
        name: "t".to_string(),
        unit: TimeUnit::Nanoseconds,
        tz: None,
        phys: Int64Column {
            values: vec![Some(5_000)],
        },
    });
    assert_eq!(a.add_to(&dt), Err(ColumnError::UnitMismatch));
}

#[test]
fn multiply_by_int64_scalar() {
    let a = dur("a", TimeUnit::Milliseconds, vec![Some(1_000), Some(2_000), None]);
    let scalar = Series::Int64(Int64Column {
        values: vec![Some(3)],
    });
    match a.multiply(&scalar).unwrap() {
        ArithOutcome::Done(Series::Duration(d)) => {
            assert_eq!(d.unit, TimeUnit::Milliseconds);
            assert_eq!(d.phys.values, vec![Some(3_000), Some(6_000), None]);
        }
        _ => panic!("expected a finished duration column"),
    }
}

#[test]
fn multiply_by_int32_column() {
    let a = dur("a", TimeUnit::Nanoseconds, vec![Some(7), Some(-2), None]);
    let ints = Series::Int32(Int32Column {
        values: vec![Some(2), Some(10), Some(4)],
    });
    match a.multiply(&ints).unwrap() {
        ArithOutcome::Done(Series::Duration(d)) => {
            assert_eq!(d.unit, TimeUnit::Nanoseconds);
            assert_eq!(d.phys.values, vec![Some(14), Some(-20), None]);
        }
        _ => panic!("expected a finished duration column"),
    }
}

#[test]
fn multiply_by_duration_is_unsupported() {
    let a = dur("a", TimeUnit::Milliseconds, vec![Some(1)]);
    let b = dur("b", TimeUnit::Milliseconds, vec![Some(1)]);
    let r = a.multiply(&Series::Duration(b));
    assert_eq!(
        r,
        Err(ColumnError::UnsupportedOperation {
            op: BinOp::Mul,
            left: DataType::Duration(TimeUnit::Milliseconds),
            right: DataType::Duration(TimeUnit::Milliseconds),
        })
    );
}

#[test]
fn multiply_by_float_goes_through_the_engine() {
    let a = dur("a", TimeUnit::Microseconds, vec![Some(1), Some(2)]);
    let f = Series::Float64(Float64Column {
        name: "f".to_string(),
        validity: vec![true, true],
    });
    match a.multiply(&f).unwrap() {
        ArithOutcome::FloatRoundTrip(unit) => assert_eq!(unit, TimeUnit::Microseconds),
        _ => panic!("expected a float round trip"),
    }
    let product = Int64Column {
        values: vec![Some(2), Some(5)],
    };
    let d = a.retag_float_result(product);
    assert_eq!(d.unit, TimeUnit::Microseconds);
    assert_eq!(d.name, "a");
    assert_eq!(d.phys.values, vec![Some(2), Some(5)]);
}

#[test]
fn divide_equal_units_cancels_to_float() {
    let a = dur("a", TimeUnit::Milliseconds, vec![Some(3_000), None, Some(5)]);
    let b = dur("b", TimeUnit::Milliseconds, vec![Some(1_000), Some(2), Some(5)]);
    match a.divide(&Series::Duration(b)).unwrap() {
        ArithOutcome::Done(Series::Float64(f)) => {
            assert_eq!(f.name, "a");
            assert_eq!(f.validity, vec![true, false, true]);
        }
        ArithOutcome::Done(_) => panic!("the unit must cancel: no duration may come back"),
        ArithOutcome::FloatRoundTrip(_) => panic!("duration over duration is decided here"),
    }
}

#[test]
fn divide_different_units_converts_then_cancels() {
    let a = dur("a", TimeUnit::Milliseconds, vec![Some(4), None]);
    let b = dur("b", TimeUnit::Nanoseconds, vec![Some(2_000_000), Some(1)]);
    match a.divide(&Series::Duration(b)).unwrap() {
        ArithOutcome::Done(Series::Float64(f)) => {
            assert_eq!(f.validity, vec![true, false]);
        }
        _ => panic!("expected a float column"),
    }
}

#[test]
fn divide_by_int64_keeps_unit_and_nulls_zero_divisors() {
    let a = dur("a", TimeUnit::Milliseconds, vec![Some(9), Some(7), Some(5)]);
    let ints = Series::Int64(Int64Column {
        values: vec![Some(2), Some(0), Some(-2)],
    });
    match a.divide(&ints).unwrap() {
        ArithOutcome::Done(Series::Duration(d)) => {
            assert_eq!(d.unit, TimeUnit::Milliseconds);
            assert_eq!(d.phys.values, vec![Some(4), None, Some(-2)]);
        }
        _ => panic!("expected a finished duration column"),
    }
}

#[test]
fn divide_by_int32_column() {
    let a = dur("a", TimeUnit::Microseconds, vec![Some(10), Some(11)]);
    let ints = Series::Int32(Int32Column {
        values: vec![Some(5), Some(-3)],
    });
    match a.divide(&ints).unwrap() {
        ArithOutcome::Done(Series::Duration(d)) => {
            assert_eq!(d.phys.values, vec![Some(2), Some(-3)]);
        }
        _ => panic!("expected a finished duration column"),
    }
}

#[test]
fn divide_by_float_goes_through_the_engine() {
    let a = dur("a", TimeUnit::Milliseconds, vec![Some(1)]);
    let f = Series::Float64(Float64Column {
        name: "f".to_string(),
        validity: vec![true],
    });
    match a.divide(&f).unwrap() {
        ArithOutcome::FloatRoundTrip(unit) => assert_eq!(unit, TimeUnit::Milliseconds),
        _ => panic!("expected a float round trip"),
    }
}

#[test]
fn divide_by_date_is_unsupported() {
    let a = dur("a", TimeUnit::Milliseconds, vec![Some(1)]);
    let dates = Series::Date(DateColumn {
        name: "d".to_string(),
        values: vec![Some(1)],
    });
    let r = a.divide(&dates);
    assert_eq!(
        r,
        Err(ColumnError::UnsupportedOperation {
            op: BinOp::Div,
            left: DataType::Duration(TimeUnit::Milliseconds),
            right: DataType::Date,
        })
    );
}

#[test]
fn remainder_same_unit() {
    let a = dur("a", TimeUnit::Milliseconds, vec![Some(10), Some(-7), Some(3)]);
    let b = dur("b", TimeUnit::Milliseconds, vec![Some(4), Some(4), Some(0)]);
    match a.remainder(&Series::Duration(b)).unwrap() {
        Series::Duration(d) => {
            assert_eq!(d.unit, TimeUnit::Milliseconds);
            assert_eq!(d.phys.values, vec![Some(2), Some(-3), None]);
        }
        _ => panic!("expected a duration column"),
    }
}

#[test]
fn remainder_unit_mismatch_fails() {
    let a = dur("a", TimeUnit::Milliseconds, vec![Some(10)]);
    let b = dur("b", TimeUnit::Microseconds, vec![Some(4)]);
    assert_eq!(
        a.remainder(&Series::Duration(b)),
        Err(ColumnError::UnitMismatch)
    );
}

#[test]
fn remainder_non_duration_is_unsupported() {
    let a = dur("a", TimeUnit::Milliseconds, vec![Some(10)]);
    let ints = Series::Int64(Int64Column {
        values: vec![Some(4)],
    });
    assert_eq!(
        a.remainder(&ints),
        Err(ColumnError::UnsupportedOperation {
            op: BinOp::Rem,
            left: DataType::Duration(TimeUnit::Milliseconds),
            right: DataType::Int64,
        })
    );
}

#[test]
fn arithmetic_broadcasts_unit_length_operands() {
    let a = dur("a", TimeUnit::Milliseconds, vec![Some(100)]);
    let b = dur("b", TimeUnit::Milliseconds, vec![Some(1), Some(2), None]);
    match a.add_to(&Series::Duration(b)).unwrap() {
        Series::Duration(d) => {
            assert_eq!(d.phys.values, vec![Some(101), Some(102), None]);
        }
        _ => panic!("expected a duration column"),
    }
}

#[test]
fn empty_columns_flow_through() {
    let a = dur("a", TimeUnit::Milliseconds, vec![]);
    let b = dur("b", TimeUnit::Milliseconds, vec![]);
    match a.subtract(&Series::Duration(b)).unwrap() {
        Series::Duration(d) => assert_eq!(d.phys.values, vec![]),
        _ => panic!("expected a duration column"),
    }
    let scalar = Series::Int64(Int64Column {
        values: vec![Some(3)],
    });
    match a.multiply(&scalar).unwrap() {
        ArithOutcome::Done(Series::Duration(d)) => assert_eq!(d.phys.values, vec![]),
        _ => panic!("expected a finished duration column"),
    }
}

#[test]
fn unit_conversion_wraps_like_the_kernel() {
    let d = dur("d", TimeUnit::Milliseconds, vec![Some(i64::MAX)]);
    let us = d.cast_time_unit(TimeUnit::Microseconds);
    assert_eq!(us.phys.values, vec![Some(i64::MAX.wrapping_mul(1000))]);
}

#[test]
fn wrapping_overflow_in_the_kernel() {
    let a = dur("a", TimeUnit::Milliseconds, vec![Some(i64::MAX)]);
    let b = dur("b", TimeUnit::Milliseconds, vec![Some(1)]);
    match a.add_to(&Series::Duration(b)).unwrap() {
        Series::Duration(d) => assert_eq!(d.phys.values, vec![Some(i64::MIN)]),
        _ => panic!("expected a duration column"),
    }
    let c = dur("c", TimeUnit::Milliseconds, vec![Some(i64::MIN)]);
    let ints = Series::Int64(Int64Column {
        values: vec![Some(-1)],
    });
    match c.divide(&ints).unwrap() {
        ArithOutcome::Done(Series::Duration(d)) => {
            assert_eq!(d.phys.values, vec![Some(i64::MIN)]);
        }
        _ => panic!("expected a finished duration column"),
    }
}
