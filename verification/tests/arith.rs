use rayexec_execution::arrays::array::Array;
use rayexec_execution::arrays::datatype::{DataType, DataTypeId, DecimalTypeMeta};
use rayexec_execution::arrays::physical_type::{
    PhysicalF32, PhysicalI128, PhysicalI32, PhysicalI64, PhysicalI8, PhysicalInterval,
    PhysicalStorage, PhysicalU8,
};
use rayexec_execution::arrays::scalar::{Decimal128Scalar, Decimal64Scalar, Interval, ScalarValue};
use rayexec_execution::error::RayexecError;
use rayexec_execution::functions::arith::{
    interval_mul, truncate_to_i32, Add, Div, Mul, Rem, Sub,
};
use rayexec_execution::functions::int_arith::{arith_i32, arith_i8, arith_u8, ArithOp};
use rayexec_execution::functions::{plan_check_num_args, Signature};

fn ints(values: Vec<i32>) -> Array {
    Array::from_values::<PhysicalI32>(values)
}

#[test]
fn add_i32() {
    let a = ints(vec![1, 2, 3]);
    let b = ints(vec![4, 5, 6]);

    let specialized = Add
        .plan_from_datatypes(&[DataType::Int32, DataType::Int32])
        .unwrap();

    let out = specialized.execute(&[&a, &b]).unwrap();
    let expected = ints(vec![5, 7, 9]);

    assert_eq!(expected, out);
}

#[test]
fn sub_i32() {
    let a = ints(vec![4, 5, 6]);
    let b = ints(vec![1, 2, 3]);

    let specialized = Sub
        .plan_from_datatypes(&[DataType::Int32, DataType::Int32])
        .unwrap();

    let out = specialized.execute(&[&a, &b]).unwrap();
    let expected = ints(vec![3, 3, 3]);

    assert_eq!(expected, out);
}

#[test]
fn arith_div_i32() {
    let a = ints(vec![4, 5, 6]);
    let b = ints(vec![1, 2, 3]);

    let specialized = Div
        .plan_from_datatypes(&[DataType::Int32, DataType::Int32])
        .unwrap();

    let out = specialized.execute(&[&a, &b]).unwrap();
    let expected = ints(vec![4, 2, 2]);

    assert_eq!(expected, out);
}

#[test]
fn div_div_i32() {
    let a = ints(vec![4, 5, 6]);
    let b = ints(vec![1, 2, 3]);

    let specialized = Div
        .plan_from_datatypes(&[DataType::Int32, DataType::Int32])
        .unwrap();

    let out = specialized.execute(&[&a, &b]).unwrap();
    let expected = ints(vec![4, 2, 2]);

    assert_eq!(expected, out);
}

#[test]
fn rem_i32() {
    let a = ints(vec![4, 5, 6]);
    let b = ints(vec![1, 2, 3]);

    let specialized = Rem
        .plan_from_datatypes(&[DataType::Int32, DataType::Int32])
        .unwrap();

    let out = specialized.execute(&[&a, &b]).unwrap();
    let expected = ints(vec![0, 1, 0]);

    assert_eq!(expected, out);
}

#[test]
fn mul_i32() {
    let a = ints(vec![4, 5, 6]);
    let b = ints(vec![1, 2, 3]);

    let specialized = Mul
        .plan_from_datatypes(&[DataType::Int32, DataType::Int32])
        .unwrap();

    let out = specialized.execute(&[&a, &b]).unwrap();
    let expected = ints(vec![4, 10, 18]);

    assert_eq!(expected, out);
}

#[test]
fn null_propagates_through_binary_kernels() {
    let a = Array::from_options::<PhysicalI32>(vec![Some(1), None, Some(3), None]);
    let b = Array::from_options::<PhysicalI32>(vec![Some(10), Some(20), None, None]);
    let plan = Add
        .plan_from_datatypes(&[DataType::Int32, DataType::Int32])
        .unwrap();
    let out = plan.execute(&[&a, &b]).unwrap();
    assert_eq!(out.logical_len(), 4);
    for i in 0..4 {
        let a_null = a.is_valid(i) == Some(false);
        let b_null = b.is_valid(i) == Some(false);
        assert_eq!(out.is_valid(i), Some(!(a_null || b_null)));
    }
    assert_eq!(out.logical_value(0).unwrap(), ScalarValue::Int32(11));
    assert_eq!(out.logical_value(1).unwrap(), ScalarValue::Null);
}

#[test]
fn a_null_row_hides_a_zero_divisor() {
    let a = ints(vec![8, 9]);
    let b = Array::from_options::<PhysicalI32>(vec![Some(2), None]);
    let plan = Div
        .plan_from_datatypes(&[DataType::Int32, DataType::Int32])
        .unwrap();
    let out = plan.execute(&[&a, &b]).unwrap();
    assert_eq!(out.logical_value(0).unwrap(), ScalarValue::Int32(4));
    assert_eq!(out.logical_value(1).unwrap(), ScalarValue::Null);
}

#[test]
fn division_by_zero_is_an_error() {
    let a = ints(vec![8, 9]);
    let b = ints(vec![2, 0]);
    let div = Div
        .plan_from_datatypes(&[DataType::Int32, DataType::Int32])
        .unwrap();
    assert_eq!(div.execute(&[&a, &b]), Err(RayexecError::DivideByZero));
    let rem = Rem
        .plan_from_datatypes(&[DataType::Int32, DataType::Int32])
        .unwrap();
    assert_eq!(rem.execute(&[&a, &b]), Err(RayexecError::DivideByZero));
}

#[test]
fn dictionary_operands_are_followed() {
    let mut a = ints(vec![1, 2, 3]);
    a.select(vec![2, 2, 0, 1]).unwrap();
    let b = ints(vec![10, 20, 30, 40]);
    let plan = Add
        .plan_from_datatypes(&[DataType::Int32, DataType::Int32])
        .unwrap();
    let out = plan.execute(&[&a, &b]).unwrap();
    assert_eq!(out, ints(vec![13, 23, 31, 42]));
}

#[test]
fn kernels_check_their_inputs() {
    let a = ints(vec![1, 2, 3]);
    let b = ints(vec![1, 2]);
    let plan = Add
        .plan_from_datatypes(&[DataType::Int32, DataType::Int32])
        .unwrap();
    assert_eq!(
        plan.execute(&[&a, &b]),
        Err(RayexecError::LengthMismatch { left: 3, right: 2 })
    );
    assert_eq!(
        plan.execute(&[&a]),
        Err(RayexecError::Arity { expected: 2, got: 1 })
    );
    let wide = Array::from_values::<PhysicalI64>(vec![1, 2, 3]);
    assert_eq!(plan.execute(&[&a, &wide]), Err(RayexecError::NotImplemented));
    let floats = Array::from_values::<PhysicalF32>(vec![1.0f32.to_bits()]);
    assert_eq!(
        plan.execute(&[&floats, &floats]),
        Err(RayexecError::NotImplemented)
    );
}

#[test]
fn planning_checks_arity_and_types() {
    assert_eq!(
        Add.plan_from_datatypes(&[DataType::Int32]).unwrap_err(),
        RayexecError::Arity { expected: 2, got: 1 }
    );
    assert_eq!(
        Add.plan_from_datatypes(&[DataType::Int32, DataType::Int64]).unwrap_err(),
        RayexecError::InvalidInputTypes {
            first: DataTypeId::Int32,
            second: Some(DataTypeId::Int64)
        }
    );
    assert!(Add.plan_from_datatypes(&[DataType::Interval, DataType::Int64]).is_err());
    assert!(Mul.plan_from_datatypes(&[DataType::Interval, DataType::Int64]).is_ok());
    let decimal = DataType::Decimal64(DecimalTypeMeta { precision: 10, scale: 2 });
    assert!(Rem.plan_from_datatypes(&[decimal.clone(), decimal.clone()]).is_err());
    let add = Add.plan_from_datatypes(&[decimal.clone(), decimal.clone()]).unwrap();
    assert_eq!(add.return_type(), decimal);
    let div = Div.plan_from_datatypes(&[decimal.clone(), decimal.clone()]).unwrap();
    assert_eq!(div.return_type(), DataType::Float64);
    assert!(Sub.plan_from_datatypes(&[DataType::Float32, DataType::Float32]).is_ok());
    assert!(Div.plan_from_datatypes(&[DataType::Utf8, DataType::Utf8]).is_err());
}

#[test]
fn names_aliases_and_signatures() {
    assert_eq!(Add.name(), "+");
    assert_eq!(Sub.name(), "-");
    assert_eq!(Mul.name(), "*");
    assert_eq!(Div.name(), "/");
    assert_eq!(Rem.name(), "%");
    assert_eq!(Add.aliases(), vec!["add"]);
    assert_eq!(Rem.aliases(), vec!["rem", "mod"]);
    let common = Add.signatures();
    assert_eq!(common.len(), 13);
    assert_eq!(common[0].positional_args, vec![DataTypeId::Float32, DataTypeId::Float32]);
    assert_eq!(common[10].positional_args, vec![DataTypeId::Date32, DataTypeId::Int64]);
    assert_eq!(common[10].return_type, DataTypeId::Date32);
    assert_eq!(common[12].return_type, DataTypeId::Decimal64);
    assert!(common[4].exact_match(&[DataTypeId::Int32, DataTypeId::Int32]));
    assert!(!common[4].exact_match(&[DataTypeId::Int32]));
    let div = Div.signatures();
    assert_eq!(div.len(), 14);
    assert_eq!(div[12].return_type, DataTypeId::Float64);
    assert_eq!(div[13].positional_args, vec![DataTypeId::Decimal128, DataTypeId::Decimal128]);
    assert_eq!(div[13].variadic_arg, None);
    assert_eq!(Mul.plan_from_datatypes(&[DataType::Int8, DataType::Int8]).unwrap().scalar_function(), Mul);
}

#[test]
fn integer_overflow_wraps() {
    assert_eq!(arith_i8(ArithOp::Add, 127, 1), Ok(-128));
    assert_eq!(arith_i8(ArithOp::Sub, -128, 1), Ok(127));
    assert_eq!(arith_i8(ArithOp::Mul, 64, 4), Ok(0));
    assert_eq!(arith_i8(ArithOp::Mul, -128, -1), Ok(-128));
    assert_eq!(arith_i8(ArithOp::Div, -128, -1), Ok(-128));
    assert_eq!(arith_i8(ArithOp::Rem, -128, -1), Ok(0));
    assert_eq!(arith_i8(ArithOp::Div, -7, 2), Ok(-3));
    assert_eq!(arith_i8(ArithOp::Rem, -7, 2), Ok(-1));
    assert_eq!(arith_i8(ArithOp::Rem, 7, -2), Ok(1));
    assert_eq!(arith_i8(ArithOp::Div, 7, -2), Ok(-3));
    assert_eq!(arith_i8(ArithOp::Div, 1, 0), Err(RayexecError::DivideByZero));
    assert_eq!(arith_u8(ArithOp::Add, 255, 1), Ok(0));
    assert_eq!(arith_u8(ArithOp::Sub, 0, 1), Ok(255));
    assert_eq!(arith_u8(ArithOp::Mul, 16, 17), Ok(16));
    assert_eq!(arith_u8(ArithOp::Div, 200, 7), Ok(28));
    assert_eq!(arith_u8(ArithOp::Rem, 200, 7), Ok(4));
    assert_eq!(arith_u8(ArithOp::Rem, 200, 0), Err(RayexecError::DivideByZero));
    assert_eq!(arith_i32(ArithOp::Add, i32::MAX, i32::MAX), Ok(-2));

    let a = Array::from_values::<PhysicalI8>(vec![127, -128]);
    let b = Array::from_values::<PhysicalI8>(vec![1, -1]);
    let plan = Add.plan_from_datatypes(&[DataType::Int8, DataType::Int8]).unwrap();
    assert_eq!(
        plan.execute(&[&a, &b]).unwrap(),
        Array::from_values::<PhysicalI8>(vec![-128, 127])
    );
    let a = Array::from_values::<PhysicalU8>(vec![250]);
    let b = Array::from_values::<PhysicalU8>(vec![10]);
    let plan = Add.plan_from_datatypes(&[DataType::UInt8, DataType::UInt8]).unwrap();
    assert_eq!(
        plan.execute(&[&a, &b]).unwrap(),
        Array::from_values::<PhysicalU8>(vec![4])
    );
}

#[test]
fn identity_laws_on_values() {
    for x in [i32::MIN, -1, 0, 1, 12345, i32::MAX] {
        assert_eq!(arith_i32(ArithOp::Add, x, 0), Ok(x));
        assert_eq!(arith_i32(ArithOp::Add, 0, x), Ok(x));
        assert_eq!(arith_i32(ArithOp::Sub, x, 0), Ok(x));
        assert_eq!(arith_i32(ArithOp::Mul, x, 1), Ok(x));
        assert_eq!(arith_i32(ArithOp::Mul, 1, x), Ok(x));
        assert_eq!(arith_i32(ArithOp::Div, x, 1), Ok(x));
    }
}

#[test]
fn date_takes_a_truncated_count_of_days() {
    let date = Array::new_with_array_data(DataType::Date32, PhysicalI32::store(vec![100, 200]));
    let days = Array::from_values::<PhysicalI64>(vec![5, (1i64 << 32) + 7]);
    let add = Add.plan_from_datatypes(&[DataType::Date32, DataType::Int64]).unwrap();
    let out = add.execute(&[&date, &days]).unwrap();
    assert_eq!(out.datatype(), &DataType::Date32);
    assert_eq!(out.logical_value(0).unwrap(), ScalarValue::Date32(105));
    assert_eq!(out.logical_value(1).unwrap(), ScalarValue::Date32(207));
    let sub = Sub.plan_from_datatypes(&[DataType::Date32, DataType::Int64]).unwrap();
    let out = sub.execute(&[&date, &days]).unwrap();
    assert_eq!(out.logical_value(0).unwrap(), ScalarValue::Date32(95));
    let mul = Mul.plan_from_datatypes(&[DataType::Date32, DataType::Int64]).unwrap();
    assert_eq!(mul.execute(&[&date, &days]), Err(RayexecError::NotImplemented));
    assert_eq!(truncate_to_i32(-1), -1);
    assert_eq!(truncate_to_i32(0x8000_0000), i32::MIN);
    assert_eq!(truncate_to_i32(0x1_0000_0001), 1);
    assert_eq!(truncate_to_i32(i64::MIN), 0);
}

#[test]
fn decimals_keep_the_left_precision_and_scale() {
    let left = DataType::Decimal64(DecimalTypeMeta { precision: 10, scale: 2 });
    let right = DataType::Decimal64(DecimalTypeMeta { precision: 8, scale: 1 });
    let a = Array::new_with_array_data(left.clone(), PhysicalI64::store(vec![150, i64::MAX]));
    let b = Array::new_with_array_data(right.clone(), PhysicalI64::store(vec![25, 2]));
    let add = Add.plan_from_datatypes(&[left.clone(), right.clone()]).unwrap();
    let out = add.execute(&[&a, &b]).unwrap();
    assert_eq!(
        out.logical_value(0).unwrap(),
        ScalarValue::Decimal64(Decimal64Scalar { precision: 10, scale: 2, value: 175 })
    );
    let mul = Mul.plan_from_datatypes(&[left.clone(), right.clone()]).unwrap();
    let out = mul.execute(&[&a, &b]).unwrap();
    assert_eq!(
        out.logical_value(0).unwrap(),
        ScalarValue::Decimal64(Decimal64Scalar { precision: 10, scale: 2, value: 3750 })
    );
    // A product that does not fit gives zero.
    assert_eq!(
        out.logical_value(1).unwrap(),
        ScalarValue::Decimal64(Decimal64Scalar { precision: 10, scale: 2, value: 0 })
    );
    let div = Div.plan_from_datatypes(&[left.clone(), right.clone()]).unwrap();
    assert_eq!(div.execute(&[&a, &b]), Err(RayexecError::NotImplemented));

    let wide = DataType::Decimal128(DecimalTypeMeta { precision: 30, scale: 4 });
    let a = Array::new_with_array_data(wide.clone(), PhysicalI128::store(vec![7, i128::MAX]));
    let b = Array::new_with_array_data(wide.clone(), PhysicalI128::store(vec![6, 3]));
    let mul = Mul.plan_from_datatypes(&[wide.clone(), wide.clone()]).unwrap();
    let out = mul.execute(&[&a, &b]).unwrap();
    assert_eq!(
        out.logical_value(0).unwrap(),
        ScalarValue::Decimal128(Decimal128Scalar { precision: 30, scale: 4, value: 42 })
    );
    assert_eq!(
        out.logical_value(1).unwrap(),
        ScalarValue::Decimal128(Decimal128Scalar { precision: 30, scale: 4, value: 0 })
    );
}

#[test]
fn interval_is_multiplied_by_component() {
    let a = Array::from_values::<PhysicalInterval>(vec![Interval { months: 1, days: 2, nanos: 3 }]);
    let b = Array::from_values::<PhysicalI64>(vec![4]);
    let mul = Mul.plan_from_datatypes(&[DataType::Interval, DataType::Int64]).unwrap();
    let out = mul.execute(&[&a, &b]).unwrap();
    assert_eq!(
        out.logical_value(0).unwrap(),
        ScalarValue::Interval(Interval { months: 4, days: 8, nanos: 12 })
    );
    assert_eq!(
        interval_mul(Interval { months: 1, days: -1, nanos: 2 }, (1i64 << 32) + 3),
        Interval { months: 3, days: -3, nanos: (1i64 << 33) + 6 }
    );
    let rem = Rem.plan_from_datatypes(&[DataType::Interval, DataType::Int64]).unwrap();
    assert_eq!(rem.execute(&[&a, &b]), Err(RayexecError::NotImplemented));
}

#[test]
fn signature_with_a_variadic_argument() {
    let signature = Signature {
        positional_args: vec![DataTypeId::Utf8],
        variadic_arg: Some(DataTypeId::Int64),
        return_type: DataTypeId::Utf8,
    };
    assert!(signature.exact_match(&[DataTypeId::Utf8]));
    assert!(signature.exact_match(&[DataTypeId::Utf8, DataTypeId::Int64, DataTypeId::Int64]));
    assert!(!signature.exact_match(&[DataTypeId::Utf8, DataTypeId::Int32]));
    assert!(!signature.exact_match(&[]));
    assert_eq!(
        plan_check_num_args(3, 2),
        Err(RayexecError::Arity { expected: 2, got: 3 })
    );
}

#[test]
fn kernels_on_empty_columns() {
    let a = ints(vec![]);
    let b = ints(vec![]);
    let plan = Div.plan_from_datatypes(&[DataType::Int32, DataType::Int32]).unwrap();
    let out = plan.execute(&[&a, &b]).unwrap();
    assert_eq!(out.logical_len(), 0);
    assert_eq!(out, ints(vec![]));
}
