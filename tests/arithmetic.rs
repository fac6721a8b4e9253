use frame_arith::arithmetic::{ArithError, Op};
use frame_arith::dtype::{get_supertype, DataType};
use frame_arith::frame::{Column, DataFrame, DataFrameOps, IntoDf};

#[derive(Clone, Debug, PartialEq)]
enum Val {
    I(i64),
    F(f64),
    S(String),
}

fn is_float(t: DataType) -> bool {
    matches!(t, DataType::Float32 | DataType::Float64)
}

fn cast(v: &Val, t: DataType) -> Option<Val> {
    match (v, t) {
        (Val::S(s), DataType::Utf8) => Some(Val::S(s.clone())),
        (Val::S(_), _) => None,
        (Val::I(i), t) if is_float(t) => Some(Val::F(*i as f64)),
        (Val::I(i), DataType::Utf8) => Some(Val::S(i.to_string())),
        (Val::I(i), DataType::Int8) => i8::try_from(*i).ok().map(|x| Val::I(x as i64)),
        (Val::I(i), _) => Some(Val::I(*i)),
        (Val::F(f), t) if is_float(t) => Some(Val::F(*f)),
        (Val::F(_), _) => None,
    }
}

fn apply(op: Op, a: &Val, b: &Val) -> Option<Val> {
    match (a, b) {
        (Val::I(x), Val::I(y)) => match op {
            Op::Add => x.checked_add(*y).map(Val::I),
            Op::Sub => x.checked_sub(*y).map(Val::I),
            Op::Mul => x.checked_mul(*y).map(Val::I),
            Op::Div => x.checked_div(*y).map(Val::I),
            Op::Rem => x.checked_rem(*y).map(Val::I),
        },
        (Val::F(x), Val::F(y)) => Some(Val::F(match op {
            Op::Add => x + y,
            Op::Sub => x - y,
            Op::Mul => x * y,
            Op::Div => x / y,
            Op::Rem => x % y,
        })),
        _ => None,
    }
}

fn int_col(name: &str, vals: &[i64]) -> Column<Val> {
    Column::new(
        name.to_string(),
        DataType::Int64,
        vals.iter().map(|v| Some(Val::I(*v))).collect(),
    )
}

fn typed_col(name: &str, dtype: DataType, vals: Vec<Option<Val>>) -> Column<Val> {
    Column::new(name.to_string(), dtype, vals)
}

fn ints(vals: &[Option<i64>]) -> Vec<Option<Val>> {
    vals.iter().map(|v| v.map(Val::I)).collect()
}

#[test]
fn broadcast_pads_rows_and_nulls_extra_columns() {
    let l = DataFrame::new(vec![int_col("a", &[1, 2, 3]), int_col("b", &[4, 5, 6])]);
    let r = DataFrame::new(vec![int_col("a", &[10, 20])]);
    let out = l.add(&r, &cast, &apply).unwrap();
    assert_eq!(out.width(), 2);
    assert_eq!(out.height(), 3);
    let cols = out.get_columns();
    assert_eq!(cols[0].name, "a");
    assert_eq!(cols[0].values, ints(&[Some(11), Some(22), None]));
    assert_eq!(cols[1].name, "b");
    assert_eq!(cols[1].dtype, DataType::Int64);
    assert_eq!(cols[1].values, ints(&[None, None, None]));
}

#[test]
fn series_promotes_integer_column_to_float() {
    let df = DataFrame::new(vec![
        int_col("i", &[1, 2]),
        typed_col("f", DataType::Float64, vec![Some(Val::F(0.5)), None]),
    ]);
    let s = typed_col("s", DataType::Float64, vec![Some(Val::F(1.5)), Some(Val::F(2.0))]);
    let out = df.add_series(&s, &cast, &apply).unwrap();
    let cols = out.get_columns();
    assert_eq!(cols[0].dtype, DataType::Float64);
    assert_eq!(cols[1].dtype, DataType::Float64);
    assert_eq!(cols[0].values, vec![Some(Val::F(2.5)), Some(Val::F(4.0))]);
    assert_eq!(cols[1].values, vec![Some(Val::F(2.0)), None]);
}

#[test]
fn series_uses_one_global_supertype() {
    let df = DataFrame::new(vec![
        typed_col("a", DataType::Int8, ints(&[Some(1), Some(2)])),
        typed_col("b", DataType::UInt8, ints(&[Some(3), None])),
    ]);
    let s = typed_col("s", DataType::Int8, ints(&[Some(10), Some(20)]));
    let out = df.mul_series(&s, &cast, &apply).unwrap();
    let cols = out.get_columns();
    assert_eq!(out.width(), 2);
    assert_eq!(cols[0].name, "a");
    assert_eq!(cols[0].dtype, DataType::Int16);
    assert_eq!(cols[1].dtype, DataType::Int16);
    assert_eq!(cols[0].values, ints(&[Some(10), Some(40)]));
    assert_eq!(cols[1].values, ints(&[Some(30), None]));
}

#[test]
fn series_operators() {
    let df = DataFrame::new(vec![int_col("a", &[7, 9])]);
    let s = int_col("s", &[2, 4]);
    let sub = df.sub_series(&s, &cast, &apply).unwrap();
    assert_eq!(sub.get_columns()[0].values, ints(&[Some(5), Some(5)]));
    let div = df.div_series(&s, &cast, &apply).unwrap();
    assert_eq!(div.get_columns()[0].values, ints(&[Some(3), Some(2)]));
    let rem = df.rem_series(&s, &cast, &apply).unwrap();
    assert_eq!(rem.get_columns()[0].values, ints(&[Some(1), Some(1)]));
    let via_op = df.arithmetic(&s, Op::Rem, &cast, &apply).unwrap();
    assert_eq!(via_op.get_columns()[0].values, ints(&[Some(1), Some(1)]));
}

#[test]
fn series_incompatible_types() {
    let df = DataFrame::new(vec![int_col("a", &[1])]);
    let s = typed_col("s", DataType::Utf8, vec![Some(Val::S("x".to_string()))]);
    assert_eq!(df.add_series(&s, &cast, &apply).err(), Some(ArithError::IncompatibleTypes));
}

#[test]
fn series_length_mismatch() {
    let df = DataFrame::new(vec![int_col("a", &[1, 2, 3])]);
    let s = int_col("s", &[1, 2]);
    assert_eq!(df.add_series(&s, &cast, &apply).err(), Some(ArithError::LengthMismatch));
}

#[test]
fn series_cast_failure() {
    let df = DataFrame::new(vec![typed_col("a", DataType::Int8, ints(&[Some(1), Some(2)]))]);
    let s = typed_col("s", DataType::Int8, ints(&[Some(1), Some(1000)]));
    assert_eq!(df.add_series(&s, &cast, &apply).err(), Some(ArithError::CastFailure));
}

#[test]
fn frame_division_by_zero_fails() {
    let l = DataFrame::new(vec![int_col("a", &[1, 2])]);
    let r = DataFrame::new(vec![int_col("a", &[1, 0])]);
    assert_eq!(l.div(&r, &cast, &apply).err(), Some(ArithError::OperatorFailure));
}

#[test]
fn frame_division_by_null_is_null() {
    let l = DataFrame::new(vec![int_col("a", &[8, 2])]);
    let r = DataFrame::new(vec![typed_col("a", DataType::Int64, ints(&[Some(2), None]))]);
    let out = l.div(&r, &cast, &apply).unwrap();
    assert_eq!(out.get_columns()[0].values, ints(&[Some(4), None]));
}

#[test]
fn frame_incompatible_pair() {
    let l = DataFrame::new(vec![int_col("a", &[1])]);
    let r = DataFrame::new(vec![typed_col("a", DataType::Utf8, vec![Some(Val::S("x".to_string()))])]);
    assert_eq!(l.sub(&r, &cast, &apply).err(), Some(ArithError::IncompatibleTypes));
}

#[test]
fn frame_cast_failure() {
    let l = DataFrame::new(vec![typed_col("a", DataType::Int8, ints(&[Some(300)]))]);
    let r = DataFrame::new(vec![typed_col("a", DataType::Int8, ints(&[Some(1)]))]);
    assert_eq!(l.add(&r, &cast, &apply).err(), Some(ArithError::CastFailure));
}

#[test]
fn same_shape_is_pairwise_with_per_pair_types() {
    let l = DataFrame::new(vec![
        typed_col("x", DataType::Int8, ints(&[Some(1), Some(2)])),
        typed_col("y", DataType::Int64, ints(&[Some(3), Some(4)])),
    ]);
    let r = DataFrame::new(vec![
        typed_col("p", DataType::Int16, ints(&[Some(5), Some(6)])),
        typed_col("q", DataType::Float32, vec![Some(Val::F(0.5)), Some(Val::F(1.0))]),
    ]);
    let out = l.mul(&r, &cast, &apply).unwrap();
    let cols = out.get_columns();
    assert_eq!(out.height(), 2);
    assert_eq!(cols[0].name, "x");
    assert_eq!(cols[0].dtype, DataType::Int16);
    assert_eq!(cols[0].values, ints(&[Some(5), Some(12)]));
    assert_eq!(cols[1].name, "y");
    assert_eq!(cols[1].dtype, DataType::Float64);
    assert_eq!(cols[1].values, vec![Some(Val::F(1.5)), Some(Val::F(4.0))]);
}

#[test]
fn taller_right_frame_pads_left_with_nulls() {
    let l = DataFrame::new(vec![int_col("a", &[1])]);
    let r = DataFrame::new(vec![int_col("a", &[5, 6, 7])]);
    let out = l.rem(&r, &cast, &apply).unwrap();
    assert_eq!(out.height(), 3);
    assert_eq!(out.get_columns()[0].values, ints(&[Some(1), None, None]));
}

#[test]
fn wider_right_frame_gives_null_columns_typed_after_right() {
    let l = DataFrame::new(vec![int_col("a", &[1, 2])]);
    let r = DataFrame::new(vec![
        int_col("a", &[1, 1]),
        typed_col("z", DataType::Utf8, vec![Some(Val::S("u".to_string())), None]),
        typed_col("w", DataType::Float32, vec![Some(Val::F(1.0)), None]),
    ]);
    let out = l.binary_aligned(&r, Op::Add, &cast, &apply).unwrap();
    let cols = out.get_columns();
    assert_eq!(out.width(), 3);
    assert_eq!(cols[0].values, ints(&[Some(2), Some(3)]));
    assert_eq!(cols[1].name, "z");
    assert_eq!(cols[1].dtype, DataType::Utf8);
    assert_eq!(cols[1].values, vec![None, None]);
    assert_eq!(cols[2].name, "w");
    assert_eq!(cols[2].dtype, DataType::Float32);
    assert_eq!(cols[2].values, vec![None, None]);
}

#[test]
fn empty_frames_combine_to_empty() {
    let l: DataFrame<Val> = DataFrame::new(vec![]);
    let r: DataFrame<Val> = DataFrame::new(vec![]);
    let out = l.add(&r, &cast, &apply).unwrap();
    assert_eq!(out.width(), 0);
    assert_eq!(out.height(), 0);
}

#[test]
fn frame_shape_queries() {
    let df = DataFrame::new(vec![int_col("a", &[1, 2, 3]), int_col("b", &[4])]);
    assert_eq!(df.width(), 2);
    assert_eq!(df.height(), 3);
    assert_eq!(df.to_df().width(), 2);
    assert_eq!(df.get_columns()[1].len(), 1);
    assert_eq!(df.get_columns()[1].dtype(), DataType::Int64);
    let n: Column<Val> = Column::full_null("n".to_string(), DataType::Boolean, 4);
    assert_eq!(n.values, vec![None, None, None, None]);
}

const ALL: [DataType; 13] = [
    DataType::Boolean,
    DataType::UInt8,
    DataType::UInt16,
    DataType::UInt32,
    DataType::UInt64,
    DataType::Int8,
    DataType::Int16,
    DataType::Int32,
    DataType::Int64,
    DataType::Float32,
    DataType::Float64,
    DataType::Utf8,
    DataType::Null,
];

#[test]
fn supertype_is_commutative_on_every_pair() {
    for a in ALL {
        for b in ALL {
            assert_eq!(get_supertype(a, b), get_supertype(b, a));
        }
    }
}

#[test]
fn supertype_joins() {
    assert_eq!(get_supertype(DataType::Int8, DataType::Int8), Some(DataType::Int8));
    assert_eq!(get_supertype(DataType::Int8, DataType::Int32), Some(DataType::Int32));
    assert_eq!(get_supertype(DataType::UInt8, DataType::UInt32), Some(DataType::UInt32));
    assert_eq!(get_supertype(DataType::Int8, DataType::UInt8), Some(DataType::Int16));
    assert_eq!(get_supertype(DataType::Int64, DataType::UInt32), Some(DataType::Int64));
    assert_eq!(get_supertype(DataType::Int64, DataType::UInt64), Some(DataType::Float64));
    assert_eq!(get_supertype(DataType::Boolean, DataType::Int8), Some(DataType::Int8));
    assert_eq!(get_supertype(DataType::Boolean, DataType::UInt16), Some(DataType::UInt16));
    assert_eq!(get_supertype(DataType::Float32, DataType::Int16), Some(DataType::Float32));
    assert_eq!(get_supertype(DataType::Float32, DataType::Int32), Some(DataType::Float64));
    assert_eq!(get_supertype(DataType::Float32, DataType::Float64), Some(DataType::Float64));
    assert_eq!(get_supertype(DataType::Null, DataType::Utf8), Some(DataType::Utf8));
    assert_eq!(get_supertype(DataType::Float64, DataType::Null), Some(DataType::Float64));
    assert_eq!(get_supertype(DataType::Utf8, DataType::Int32), None);
    assert_eq!(get_supertype(DataType::Boolean, DataType::Utf8), None);
}

#[test]
fn supertype_of_whole_frame() {
    let df = DataFrame::new(vec![
        typed_col("a", DataType::UInt8, vec![]),
        typed_col("b", DataType::Int16, vec![]),
    ]);
    let s = typed_col("s", DataType::Null, vec![]);
    assert_eq!(frame_arith::arithmetic::get_supertype_all(&df, &s), Some(DataType::Int16));
    let t = typed_col("t", DataType::Utf8, vec![]);
    assert_eq!(frame_arith::arithmetic::get_supertype_all(&df, &t), None);
}

#[test]
fn wider_left_frame_gives_null_columns_typed_after_left() {
    let l = DataFrame::new(vec![
        int_col("a", &[1, 2]),
        typed_col("f", DataType::Float64, vec![Some(Val::F(1.0)), Some(Val::F(2.0))]),
    ]);
    let r = DataFrame::new(vec![typed_col("x", DataType::Int8, ints(&[Some(3), Some(4)]))]);
    let out = l.sub(&r, &cast, &apply).unwrap();
    let cols = out.get_columns();
    assert_eq!(out.width(), 2);
    assert_eq!(cols[0].name, "a");
    assert_eq!(cols[0].dtype, DataType::Int64);
    assert_eq!(cols[0].values, ints(&[Some(-2), Some(-2)]));
    assert_eq!(cols[1].name, "f");
    assert_eq!(cols[1].dtype, DataType::Float64);
    assert_eq!(cols[1].values, vec![None, None]);
}

#[test]
fn series_on_frame_without_columns() {
    let df: DataFrame<Val> = DataFrame::new(vec![]);
    let s = int_col("s", &[1, 2]);
    let out = df.add_series(&s, &cast, &apply).unwrap();
    assert_eq!(out.width(), 0);
}

#[test]
fn series_null_cells_stay_null() {
    let df = DataFrame::new(vec![typed_col("a", DataType::Int32, ints(&[None, Some(4)]))]);
    let s = typed_col("s", DataType::Null, vec![None, None]);
    let out = df.add_series(&s, &cast, &apply).unwrap();
    let cols = out.get_columns();
    assert_eq!(cols[0].dtype, DataType::Int32);
    assert_eq!(cols[0].values, ints(&[None, None]));
}

#[test]
fn partial_operator_succeeds_where_it_is_defined() {
    let l = DataFrame::new(vec![int_col("a", &[8, 9]), int_col("b", &[6, 7])]);
    let r = DataFrame::new(vec![int_col("a", &[2, 3]), int_col("b", &[3, 7])]);
    let out = l.div(&r, &cast, &apply).unwrap();
    assert_eq!(out.get_columns()[0].values, ints(&[Some(4), Some(3)]));
    assert_eq!(out.get_columns()[1].values, ints(&[Some(2), Some(1)]));
}

#[test]
fn first_failing_pair_decides_the_error() {
    let l = DataFrame::new(vec![
        typed_col("a", DataType::Int8, ints(&[Some(1), Some(2)])),
        typed_col("b", DataType::Int8, ints(&[Some(300), Some(1)])),
    ]);
    let r = DataFrame::new(vec![
        typed_col("a", DataType::Int8, ints(&[Some(1), Some(0)])),
        typed_col("b", DataType::Int8, ints(&[Some(1), Some(1)])),
    ]);
    assert_eq!(l.div(&r, &cast, &apply).err(), Some(ArithError::OperatorFailure));
    let l2 = DataFrame::new(vec![
        typed_col("a", DataType::Int8, ints(&[Some(300), Some(2)])),
        typed_col("b", DataType::Int8, ints(&[Some(1), Some(1)])),
    ]);
    assert_eq!(l2.div(&r, &cast, &apply).err(), Some(ArithError::CastFailure));
}

fn frame_width_via_ops<T: DataFrameOps<Val>>(f: &T) -> usize {
    f.to_df().width()
}

#[test]
fn frame_ops_reach_the_frame() {
    let df = DataFrame::new(vec![int_col("a", &[1])]);
    assert_eq!(frame_width_via_ops(&df), 1);
}
