use rayexec_execution::arrays::array::{Array, ArrayData2, ListItemMetadata, ListStorage};
use rayexec_execution::arrays::batch::Batch;
use rayexec_execution::arrays::datatype::{DataType, DataTypeId, ListTypeMeta};
use rayexec_execution::arrays::executor::{
    ArrayBuilder, BinaryExecutor, BinaryListReducer, PrimitiveBuffer, UnaryExecutor,
};
use rayexec_execution::arrays::physical_type::{
    check_storage, PhysicalBool, PhysicalF64, PhysicalI32, PhysicalI64, PhysicalType,
};
use rayexec_execution::arrays::scalar::ScalarValue;
use rayexec_execution::error::RayexecError;
use rayexec_execution::expr::PhysicalLiteralExpr;
use rayexec_execution::functions::builtin::{ReadParquet, SinOp};
use rayexec_execution::functions::l2_distance::{L2Distance, L2DistanceImpl, L2DistancePlan};
use std::sync::Arc;

struct L2DistanceReducer {
    distance: f64,
}

impl BinaryListReducer<u64, u64> for L2DistanceReducer {
    // The model of the reducer is the reducer itself.
    fn spec_new(left_len: i32, right_len: i32) -> Self {
        Self::new(left_len, right_len)
    }

    fn spec_put(mut self, v1: u64, v2: u64) -> Self {
        self.put_values(v1, v2);
        self
    }

    fn spec_finish(self) -> u64 {
        self.finish()
    }

    fn new(left_len: i32, right_len: i32) -> Self {
        assert_eq!(left_len, right_len);
        L2DistanceReducer { distance: 0.0 }
    }

    fn put_values(&mut self, v1: u64, v2: u64) {
        let diff = f64::from_bits(v1) - f64::from_bits(v2);
        self.distance += diff * diff;
    }

    fn finish(self) -> u64 {
        self.distance.sqrt().to_bits()
    }
}

fn doubles(values: &[f64]) -> Array {
    Array::from_values::<PhysicalF64>(values.iter().map(|v| v.to_bits()).collect())
}

fn list_of_doubles(rows: &[(i32, i32)], child: Array) -> Array {
    let metadata = rows
        .iter()
        .map(|(offset, len)| ListItemMetadata { offset: *offset, len: *len })
        .collect();
    let storage = ListStorage::try_new(metadata, child).unwrap();
    Array::new_with_array_data(
        DataType::List(ListTypeMeta { datatype: Box::new(DataType::Float64) }),
        ArrayData2::List(Arc::new(storage)),
    )
}

#[test]
fn l2_distance_of_two_lists() {
    let a = list_of_doubles(&[(0, 2)], doubles(&[1.0, 1.0]));
    let b = list_of_doubles(&[(0, 2)], doubles(&[2.0, 4.0]));
    let kernel = L2DistanceImpl::<PhysicalF64>::new();
    let out = kernel.execute::<L2DistanceReducer>(&[&a, &b]).unwrap();
    assert_eq!(out.datatype(), &DataType::Float64);
    assert_eq!(
        out.logical_value(0).unwrap(),
        ScalarValue::Float64(3.1622776601683795f64.to_bits())
    );
}

#[test]
fn l2_distance_rejects_lists_of_different_length_and_nulls() {
    let a = list_of_doubles(&[(0, 2), (2, 1)], doubles(&[1.0, 1.0, 5.0]));
    let b = list_of_doubles(&[(0, 2), (2, 2)], doubles(&[2.0, 4.0, 5.0, 6.0]));
    let kernel = L2DistanceImpl::<PhysicalF64>::new();
    assert_eq!(
        kernel.execute::<L2DistanceReducer>(&[&a, &b]),
        Err(RayexecError::LengthMismatch { left: 1, right: 2 })
    );

    let child = Array::from_options::<PhysicalF64>(vec![Some(1.0f64.to_bits()), None]);
    let with_null = list_of_doubles(&[(0, 2)], child);
    let plain = list_of_doubles(&[(0, 2)], doubles(&[2.0, 4.0]));
    assert_eq!(
        kernel.execute::<L2DistanceReducer>(&[&with_null, &plain]),
        Err(RayexecError::NullListElement { row: 0 })
    );
    assert_eq!(
        kernel.execute::<L2DistanceReducer>(&[&plain]),
        Err(RayexecError::Arity { expected: 2, got: 1 })
    );
    let flat = doubles(&[1.0]);
    assert_eq!(
        kernel.execute::<L2DistanceReducer>(&[&flat, &plain]),
        Err(RayexecError::PhysicalTypeMismatch {
            expected: PhysicalType::List,
            got: PhysicalType::Float64
        })
    );
}

#[test]
fn l2_distance_passes_null_lists_through() {
    let mut a = list_of_doubles(&[(0, 1), (1, 1)], doubles(&[1.0, 2.0]));
    a.set_physical_validity(1, false);
    let b = list_of_doubles(&[(0, 1), (1, 1)], doubles(&[4.0, 2.0]));
    let kernel = L2DistanceImpl::<PhysicalF64>::new();
    let out = kernel.execute::<L2DistanceReducer>(&[&a, &b]).unwrap();
    assert_eq!(out.logical_value(0).unwrap(), ScalarValue::Float64(3.0f64.to_bits()));
    assert_eq!(out.logical_value(1).unwrap(), ScalarValue::Null);
}

#[test]
fn l2_distance_planning() {
    let list = |inner: DataType| DataType::List(ListTypeMeta { datatype: Box::new(inner) });
    assert_eq!(L2Distance.name(), "l2_distance");
    assert_eq!(L2Distance.aliases(), vec!["array_distance"]);
    assert_eq!(L2Distance.signatures()[0].return_type, DataTypeId::Float64);
    assert_eq!(L2Distance.return_type(), DataType::Float64);
    assert!(matches!(
        L2Distance.plan(&[list(DataType::Float32), list(DataType::Float32)]),
        Ok(L2DistancePlan::Single(_))
    ));
    assert!(matches!(
        L2Distance.plan(&[list(DataType::Float64), list(DataType::Float64)]),
        Ok(L2DistancePlan::Double(_))
    ));
    assert!(matches!(
        L2Distance.plan(&[list(DataType::Float16), list(DataType::Float16)]),
        Ok(L2DistancePlan::Half(_))
    ));
    assert_eq!(
        L2Distance.plan(&[list(DataType::Float32), list(DataType::Int8)]).unwrap_err(),
        RayexecError::InvalidInputTypes {
            first: DataTypeId::Float32,
            second: Some(DataTypeId::Int8)
        }
    );
    assert_eq!(
        L2Distance.plan(&[DataType::Float32, list(DataType::Float32)]).unwrap_err(),
        RayexecError::InvalidInputTypes {
            first: DataTypeId::Float32,
            second: Some(DataTypeId::List)
        }
    );
    assert_eq!(
        L2Distance.plan(&[]).unwrap_err(),
        RayexecError::Arity { expected: 2, got: 0 }
    );
}

#[test]
fn unary_executor_runs_a_kernel_on_valid_rows() {
    let mut input = Array::from_options::<PhysicalI32>(vec![Some(1), None, Some(3)]);
    input.select(vec![2, 1, 0, 2]).unwrap();
    let builder = ArrayBuilder {
        datatype: DataType::Int64,
        buffer: PrimitiveBuffer::with_len(4, -1i64),
    };
    let out = UnaryExecutor::execute::<PhysicalI32, PhysicalI64, _>(&input, builder, |v| {
        Ok(v as i64 * 100)
    })
    .unwrap();
    assert_eq!(out.logical_value(0).unwrap(), ScalarValue::Int64(300));
    assert_eq!(out.logical_value(1).unwrap(), ScalarValue::Null);
    assert_eq!(out.logical_value(2).unwrap(), ScalarValue::Int64(100));
    assert_eq!(out.logical_value(3).unwrap(), ScalarValue::Int64(300));
    // The slot of a null row keeps what the builder held.
    assert_eq!(out.physical_scalar(1).unwrap(), ScalarValue::Int64(-1));
}

#[test]
fn executors_fail_whole() {
    let input = Array::from_values::<PhysicalI32>(vec![1, 2, 3]);
    let builder = ArrayBuilder {
        datatype: DataType::Int32,
        buffer: PrimitiveBuffer::with_len(3, 0i32),
    };
    let out = UnaryExecutor::execute::<PhysicalI32, PhysicalI32, _>(&input, builder, |v| {
        if v == 2 {
            Err(RayexecError::NotImplemented)
        } else {
            Ok(v)
        }
    });
    assert_eq!(out, Err(RayexecError::NotImplemented));

    let builder = ArrayBuilder {
        datatype: DataType::Int32,
        buffer: PrimitiveBuffer::with_len(2, 0i32),
    };
    let out = UnaryExecutor::execute::<PhysicalI32, PhysicalI32, _>(&input, builder, |v| Ok(v));
    assert_eq!(out, Err(RayexecError::LengthMismatch { left: 3, right: 2 }));

    let builder = ArrayBuilder {
        datatype: DataType::Boolean,
        buffer: PrimitiveBuffer::with_len(3, false),
    };
    let out = BinaryExecutor::execute::<PhysicalI32, PhysicalI64, PhysicalBool, _>(
        &input,
        &input,
        builder,
        |a, b| Ok(a as i64 == b),
    );
    assert_eq!(
        out,
        Err(RayexecError::PhysicalTypeMismatch {
            expected: PhysicalType::Int64,
            got: PhysicalType::Int32
        })
    );
    assert_eq!(
        check_storage::<PhysicalI64>(input.array_data()),
        Err(RayexecError::PhysicalTypeMismatch {
            expected: PhysicalType::Int64,
            got: PhysicalType::Int32
        })
    );
    assert_eq!(check_storage::<PhysicalI32>(input.array_data()), Ok(()));
}

#[test]
fn binary_executor_compares_rows() {
    let a = Array::from_values::<PhysicalI32>(vec![1, 5, 3]);
    let b = Array::from_options::<PhysicalI32>(vec![Some(1), Some(2), None]);
    let builder = ArrayBuilder {
        datatype: DataType::Boolean,
        buffer: PrimitiveBuffer::with_len(3, false),
    };
    let out = BinaryExecutor::execute::<PhysicalI32, PhysicalI32, PhysicalBool, _>(
        &a,
        &b,
        builder,
        |x, y| Ok(x == y),
    )
    .unwrap();
    assert_eq!(
        out,
        Array::from_options::<PhysicalBool>(vec![Some(true), Some(false), None])
    );
}

#[test]
fn kernels_on_floating_point_bits_run_through_the_executor() {
    let a = Array::from_values::<PhysicalF64>(vec![1.5f64.to_bits(), 2.0f64.to_bits()]);
    let b = Array::from_values::<PhysicalF64>(vec![0.25f64.to_bits(), 8.0f64.to_bits()]);
    let builder = ArrayBuilder {
        datatype: DataType::Float64,
        buffer: PrimitiveBuffer::with_len(2, 0u64),
    };
    let out = BinaryExecutor::execute::<PhysicalF64, PhysicalF64, PhysicalF64, _>(
        &a,
        &b,
        builder,
        |x, y| Ok((f64::from_bits(x) / f64::from_bits(y)).to_bits()),
    )
    .unwrap();
    assert_eq!(out.logical_value(0).unwrap(), ScalarValue::Float64(6.0f64.to_bits()));
    assert_eq!(out.logical_value(1).unwrap(), ScalarValue::Float64(0.25f64.to_bits()));
}

#[test]
fn batch_holds_columns_of_one_length() {
    let a = Array::from_values::<PhysicalI32>(vec![1, 2, 3]);
    let b = Array::from_strs(&vec!["cat", "dog", "mouse"]).unwrap();
    let batch = Batch::try_new(vec![a, b]).unwrap();
    assert_eq!(batch.num_rows(), 3);
    assert_eq!(batch.num_columns(), 2);
    assert_eq!(batch.columns().len(), 2);
    assert_eq!(
        batch.column(1).unwrap().logical_value(2).unwrap(),
        ScalarValue::Utf8("mouse".to_string())
    );
    assert!(batch.column(2).is_none());
    assert_eq!(Batch::empty().num_rows(), 0);
    assert_eq!(Batch::try_new(vec![]).unwrap().num_rows(), 0);
    let a = Array::from_values::<PhysicalI32>(vec![1, 2, 3]);
    let mut c = Array::from_values::<PhysicalI32>(vec![1, 2, 3]);
    c.select(vec![0, 0]).unwrap();
    assert_eq!(
        Batch::try_new(vec![a, c]).unwrap_err(),
        RayexecError::LengthMismatch { left: 3, right: 2 }
    );
}

#[test]
fn literal_expression_broadcasts_over_a_batch() {
    let batch = Batch::try_new(vec![Array::from_values::<PhysicalI32>(vec![1, 2, 3])]).unwrap();
    let expr = PhysicalLiteralExpr { literal: ScalarValue::Int64(42) };
    let out = expr.eval(&batch).unwrap();
    assert_eq!(out.logical_len(), 3);
    for i in 0..3 {
        assert_eq!(out.logical_value(i).unwrap(), ScalarValue::Int64(42));
    }
}

#[test]
fn named_functions() {
    assert_eq!(SinOp.name(), "sin");
    assert_eq!(SinOp.description(), "Compute the sin of value");
    assert_eq!(ReadParquet.name(), "read_parquet");
    assert_eq!(ReadParquet.aliases(), vec!["parquet_scan"]);
}
