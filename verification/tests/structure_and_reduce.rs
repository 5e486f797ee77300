use duration_column::dtypes::{DataType, TimeUnit};
use duration_column::duration::DurationColumn;
use duration_column::errors::ColumnError;
use duration_column::physical::Int64Column;
use duration_column::series::Series;

fn dur(name: &str, unit: TimeUnit, values: Vec<Option<i64>>) -> DurationColumn {
    DurationColumn {
        name: name.to_string(),
        unit,
        phys: Int64Column { values },
    }
}

#[test]
fn cast_round_trip_is_identity() {
    let d = dur(
        "d",
        TimeUnit::Microseconds,
        vec![Some(1), None, Some(-5), Some(i64::MAX)],
    );
    let phys = match d.cast(&DataType::Int64).unwrap() {
        Series::Int64(c) => c,
        _ => panic!("expected the physical column"),
    };
    assert_eq!(phys.values, d.phys.values);
    let back = DurationColumn::from_physical("d".to_string(), d.unit, phys);
    assert_eq!(back.unit, d.unit);
    assert_eq!(back.phys.values, d.phys.values);
    // Casting to the column's own duration dtype is the identity too.
    match d.cast(&DataType::Duration(TimeUnit::Microseconds)).unwrap() {
        Series::Duration(same) => assert_eq!(same.phys.values, d.phys.values),
        _ => panic!("expected a duration column"),
    }
}

#[test]
fn cast_converts_units_both_ways() {
    let d = dur("d", TimeUnit::Milliseconds, vec![Some(3), None, Some(-2)]);
    match d.cast(&DataType::Duration(TimeUnit::Microseconds)).unwrap() {
        Series::Duration(us) => {
            assert_eq!(us.unit, TimeUnit::Microseconds);
            assert_eq!(us.phys.values, vec![Some(3_000), None, Some(-2_000)]);
        }
        _ => panic!("expected a duration column"),
    }
    let n = dur(
        "n",
        TimeUnit::Nanoseconds,
        vec![Some(1_500_000), Some(-1_500_000), None],
    );
    let ms = n.cast_time_unit(TimeUnit::Milliseconds);
    assert_eq!(ms.unit, TimeUnit::Milliseconds);
    // Truncation toward zero on both signs.
    assert_eq!(ms.phys.values, vec![Some(1), Some(-1), None]);
}

#[test]
fn cast_to_undispatched_dtype_fails() {
    let d = dur("d", TimeUnit::Milliseconds, vec![Some(1)]);
    assert_eq!(d.cast(&DataType::Date), Err(ColumnError::CastFailure));
    assert_eq!(d.cast(&DataType::Float64), Err(ColumnError::CastFailure));
}

#[test]
fn reductions_preserve_the_unit() {
    let d = dur("d", TimeUnit::Nanoseconds, vec![Some(3), Some(1), None, Some(2)]);
    let s = d.sum_reduce();
    assert_eq!(s.dtype, DataType::Duration(TimeUnit::Nanoseconds));
    assert_eq!(s.value, Some(6));
    let mn = d.min_reduce();
    assert_eq!(mn.dtype, DataType::Duration(TimeUnit::Nanoseconds));
    assert_eq!(mn.value, Some(1));
    let mx = d.max_reduce();
    assert_eq!(mx.dtype, DataType::Duration(TimeUnit::Nanoseconds));
    assert_eq!(mx.value, Some(3));
}

#[test]
fn reductions_skip_nulls() {
    let all_null = dur("d", TimeUnit::Milliseconds, vec![None, None]);
    assert_eq!(all_null.sum_reduce().value, Some(0));
    assert_eq!(all_null.min_reduce().value, None);
    assert_eq!(all_null.max_reduce().value, None);
    let empty = dur("e", TimeUnit::Milliseconds, vec![]);
    assert_eq!(empty.sum_reduce().value, Some(0));
    assert_eq!(empty.min_reduce().value, None);
}

#[test]
fn var_reduce_is_tagged_milliseconds_whatever_the_unit() {
    for unit in [
        TimeUnit::Milliseconds,
        TimeUnit::Microseconds,
        TimeUnit::Nanoseconds,
    ] {
        let d = dur("d", unit, vec![Some(1), Some(2)]);
        let s = d.var_reduce(Some(42));
        assert_eq!(s.dtype, DataType::Duration(TimeUnit::Milliseconds));
        assert_eq!(s.value, Some(42));
    }
}

#[test]
fn std_median_quantile_keep_the_unit() {
    let d = dur("d", TimeUnit::Microseconds, vec![Some(1), Some(2)]);
    assert_eq!(
        d.std_reduce(Some(7)).dtype,
        DataType::Duration(TimeUnit::Microseconds)
    );
    assert_eq!(
        d.median_reduce(Some(1)).dtype,
        DataType::Duration(TimeUnit::Microseconds)
    );
    assert_eq!(
        d.quantile_reduce(None).dtype,
        DataType::Duration(TimeUnit::Microseconds)
    );
    assert_eq!(d.quantile_reduce(None).value, None);
}

#[test]
fn var_engine_input_is_the_milliseconds_conversion() {
    let d = dur(
        "d",
        TimeUnit::Nanoseconds,
        vec![Some(2_000_000), Some(-3_500_000), None],
    );
    let input = d.cast_time_unit(TimeUnit::Milliseconds);
    assert_eq!(input.unit, TimeUnit::Milliseconds);
    assert_eq!(input.phys.values, vec![Some(2), Some(-3), None]);
}

#[test]
fn grouped_aggregates() {
    let d = dur(
        "d",
        TimeUnit::Milliseconds,
        vec![Some(5), Some(1), None, Some(4)],
    );
    let groups = vec![vec![0usize, 1, 2], vec![3], vec![]];
    let mins = d.agg_min(&groups);
    assert_eq!(mins.unit, TimeUnit::Milliseconds);
    assert_eq!(mins.phys.values, vec![Some(1), Some(4), None]);
    let maxs = d.agg_max(&groups);
    assert_eq!(maxs.phys.values, vec![Some(5), Some(4), None]);
    let sums = d.agg_sum(&groups);
    assert_eq!(sums.phys.values, vec![Some(6), Some(4), Some(0)]);
}

#[test]
fn grouped_list_and_float_retags() {
    let d = dur("d", TimeUnit::Microseconds, vec![Some(5), None, Some(4)]);
    let groups = vec![vec![2usize, 0], vec![1]];
    let lists = d.agg_list(&groups);
    assert_eq!(lists.unit, TimeUnit::Microseconds);
    assert_eq!(lists.lists.len(), 2);
    assert_eq!(lists.lists[0].values, vec![Some(4), Some(5)]);
    assert_eq!(lists.lists[1].values, vec![None]);
    let engine_out = Int64Column {
        values: vec![Some(1), None],
    };
    let stds = d.agg_std(engine_out);
    assert_eq!(stds.unit, TimeUnit::Microseconds);
    assert_eq!(stds.phys.values, vec![Some(1), None]);
    let vars = d.agg_var(Int64Column {
        values: vec![Some(9), Some(9)],
    });
    assert_eq!(vars.unit, TimeUnit::Microseconds);
}

#[test]
fn slice_and_split() {
    let d = dur(
        "d",
        TimeUnit::Milliseconds,
        vec![Some(0), Some(1), Some(2), Some(3), Some(4)],
    );
    assert_eq!(d.slice(1, 2).phys.values, vec![Some(1), Some(2)]);
    assert_eq!(d.slice(-2, 5).phys.values, vec![Some(3), Some(4)]);
    assert_eq!(d.slice(10, 2).phys.values, vec![]);
    let (head, tail) = d.split_at(3);
    assert_eq!(head.phys.values, vec![Some(0), Some(1), Some(2)]);
    assert_eq!(tail.phys.values, vec![Some(3), Some(4)]);
    assert_eq!(head.unit, TimeUnit::Milliseconds);
}

#[test]
fn filter_take_reverse_shift() {
    let d = dur(
        "d",
        TimeUnit::Nanoseconds,
        vec![Some(10), None, Some(30), Some(40)],
    );
    let kept = d.filter(&vec![true, false, true, false]).unwrap();
    assert_eq!(kept.phys.values, vec![Some(10), Some(30)]);
    assert_eq!(kept.unit, TimeUnit::Nanoseconds);
    assert_eq!(
        d.filter(&vec![true]),
        Err(ColumnError::ShapeMismatch)
    );
    let taken = d.take(&vec![3usize, 0, 0]).unwrap();
    assert_eq!(taken.phys.values, vec![Some(40), Some(10), Some(10)]);
    assert_eq!(
        d.take(&vec![4usize]),
        Err(ColumnError::IndexOutOfBounds)
    );
    let rev = d.reverse();
    assert_eq!(rev.phys.values, vec![Some(40), Some(30), None, Some(10)]);
    let right = d.shift(2);
    assert_eq!(right.phys.values, vec![None, None, Some(10), None]);
    let left = d.shift(-1);
    assert_eq!(left.phys.values, vec![None, Some(30), Some(40), None]);
}

#[test]
fn zip_with_same_type_follows_the_mask() {
    let a = dur("a", TimeUnit::Milliseconds, vec![Some(1), Some(2), Some(3)]);
    let b = dur("b", TimeUnit::Milliseconds, vec![Some(9), Some(8), Some(7)]);
    let mask = vec![Some(true), Some(false), None];
    let z = a.zip_with_same_type(&mask, &b).unwrap();
    assert_eq!(z.phys.values, vec![Some(1), Some(8), None]);
    assert_eq!(z.unit, TimeUnit::Milliseconds);
}

#[test]
fn unique_and_counts() {
    let d = dur(
        "d",
        TimeUnit::Milliseconds,
        vec![Some(1), None, Some(1), Some(2), None],
    );
    let u = d.unique();
    let mut got = u.phys.values.clone();
    got.sort();
    assert_eq!(got, vec![None, Some(1), Some(2)]);
    assert_eq!(d.n_unique(), 3);
    assert_eq!(d.null_count(), 2);
    assert!(d.has_nulls());
    assert_eq!(d.is_null(), vec![false, true, false, false, true]);
    assert_eq!(d.is_not_null(), vec![true, false, true, true, false]);
    assert_eq!(d.len(), 5);
}

#[test]
fn append_requires_equal_dtypes() {
    let mut a = dur("a", TimeUnit::Milliseconds, vec![Some(1)]);
    let b = dur("b", TimeUnit::Milliseconds, vec![Some(2), None]);
    a.append(&b).unwrap();
    assert_eq!(a.phys.values, vec![Some(1), Some(2), None]);
    assert_eq!(a.unit, TimeUnit::Milliseconds);
    let c = dur("c", TimeUnit::Nanoseconds, vec![Some(3)]);
    assert_eq!(a.append(&c), Err(ColumnError::DtypeMismatch));
    assert_eq!(a.phys.values, vec![Some(1), Some(2), None]);
    assert_eq!(a.append_owned(c), Err(ColumnError::DtypeMismatch));
    let d2 = dur("d", TimeUnit::Milliseconds, vec![Some(9)]);
    a.extend(&d2).unwrap();
    assert_eq!(a.phys.values, vec![Some(1), Some(2), None, Some(9)]);
}

#[test]
fn rename_and_name() {
    let mut d = dur("old_name", TimeUnit::Milliseconds, vec![Some(1)]);
    assert_eq!(d.name().as_str(), "old_name");
    d.rename("new_name".to_string());
    assert_eq!(d.name().as_str(), "new_name");
    assert_eq!(d.unit, TimeUnit::Milliseconds);
    assert_eq!(d.phys.values, vec![Some(1)]);
}

#[test]
fn new_from_index_and_clone() {
    let d = dur("d", TimeUnit::Microseconds, vec![Some(1), None]);
    let rep = d.new_from_index(1, 3);
    assert_eq!(rep.phys.values, vec![None, None, None]);
    assert_eq!(rep.unit, TimeUnit::Microseconds);
    let copy = d.clone_inner();
    assert_eq!(copy.name, "d");
    assert_eq!(copy.phys.values, d.phys.values);
}

#[test]
fn sort_with_directions_and_null_placement() {
    let d = dur(
        "d",
        TimeUnit::Milliseconds,
        vec![Some(3), None, Some(1), Some(2), None],
    );
    let asc = d.sort_with(false, false);
    assert_eq!(asc.unit, TimeUnit::Milliseconds);
    assert_eq!(
        asc.phys.values,
        vec![None, None, Some(1), Some(2), Some(3)]
    );
    let desc_nulls_last = d.sort_with(true, true);
    assert_eq!(
        desc_nulls_last.phys.values,
        vec![Some(3), Some(2), Some(1), None, None]
    );
}

#[test]
fn validity_mismatch_positions() {
    let a = dur("a", TimeUnit::Milliseconds, vec![Some(1), None, Some(3), None]);
    let b = dur("b", TimeUnit::Milliseconds, vec![Some(9), Some(8), None, None]);
    let mut idxs: Vec<usize> = vec![77];
    a.find_validity_mismatch(&b, &mut idxs);
    assert_eq!(idxs, vec![77, 1, 2]);
}

#[test]
fn arg_unique_gives_first_occurrences() {
    let d = dur(
        "d",
        TimeUnit::Milliseconds,
        vec![Some(5), None, Some(5), Some(2), None, Some(2)],
    );
    assert_eq!(d.arg_unique(), vec![0, 1, 3]);
}

#[test]
fn null_propagation_end_to_end() {
    let a = dur("a", TimeUnit::Milliseconds, vec![Some(1), None, Some(3), None]);
    let b = dur("b", TimeUnit::Milliseconds, vec![None, Some(2), Some(3), None]);
    match a.add_to(&Series::Duration(b)).unwrap() {
        Series::Duration(d) => {
            assert_eq!(d.phys.values, vec![None, None, Some(6), None]);
        }
        _ => panic!("expected a duration column"),
    }
    // The unit conversion keeps null positions exactly.
    let converted = a.cast_time_unit(TimeUnit::Nanoseconds);
    assert_eq!(
        converted.phys.values,
        vec![Some(1_000_000), None, Some(3_000_000), None]
    );
}
