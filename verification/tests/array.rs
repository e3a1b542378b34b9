use rayexec_execution::arrays::array::{Array, ArrayData2, BinaryData, ListItemMetadata, ListStorage};
use rayexec_execution::arrays::datatype::{
    DataType, DecimalTypeMeta, ListTypeMeta, StructTypeMeta, TimeUnit, TimestampTypeMeta,
};
use rayexec_execution::arrays::physical_type::{
    PhysicalBool, PhysicalF32, PhysicalI32, PhysicalI64, PhysicalStorage, PhysicalType,
};
use rayexec_execution::arrays::scalar::{
    Decimal64Scalar, Interval, ScalarValue, TimestampScalar,
};
use rayexec_execution::arrays::selection::SelectionVector;
use rayexec_execution::arrays::storage::{ContiguousVarlenStorage, GermanVarlenStorage};
use rayexec_execution::arrays::validity::Validity;
use rayexec_execution::error::RayexecError;
use std::sync::Arc;

fn text(s: &str) -> ScalarValue {
    ScalarValue::Utf8(s.to_string())
}

fn abc() -> Array {
    Array::from_strs(&vec!["a", "b", "c"]).unwrap()
}

#[test]
fn select_mut_no_change() {
    let mut arr = abc();
    let selection = SelectionVector::with_range(0..3);

    arr.select_mut2(selection);

    assert_eq!(text("a"), arr.logical_value(0).unwrap());
    assert_eq!(text("b"), arr.logical_value(1).unwrap());
    assert_eq!(text("c"), arr.logical_value(2).unwrap());
}

#[test]
fn select_mut_prune_rows() {
    let mut arr = abc();
    let selection = SelectionVector::from_vec(vec![0, 2]);

    arr.select_mut2(selection);

    assert_eq!(text("a"), arr.logical_value(0).unwrap());
    assert_eq!(text("c"), arr.logical_value(1).unwrap());
    assert!(arr.logical_value(2).is_err());
}

#[test]
fn select_mut_expand_rows() {
    let mut arr = abc();
    let selection = SelectionVector::from_vec(vec![0, 1, 1, 2]);

    arr.select_mut2(selection);

    assert_eq!(text("a"), arr.logical_value(0).unwrap());
    assert_eq!(text("b"), arr.logical_value(1).unwrap());
    assert_eq!(text("b"), arr.logical_value(2).unwrap());
    assert_eq!(text("c"), arr.logical_value(3).unwrap());
    assert!(arr.logical_value(4).is_err());
}

#[test]
fn select_mut_existing_selection() {
    let mut arr = abc();
    let selection = SelectionVector::from_vec(vec![0, 2]);

    // => ["a", "c"]
    arr.select_mut2(selection);

    let selection = SelectionVector::from_vec(vec![1, 1, 0]);
    arr.select_mut2(selection);

    assert_eq!(text("c"), arr.logical_value(0).unwrap());
    assert_eq!(text("c"), arr.logical_value(1).unwrap());
    assert_eq!(text("a"), arr.logical_value(2).unwrap());
    assert!(arr.logical_value(3).is_err());
}

#[test]
fn scalar_value_logical_eq_i32() {
    let arr = Array::from_values::<PhysicalI32>(vec![1, 2, 3]);
    let scalar = ScalarValue::Int32(2);

    assert!(!arr.scalar_value_logically_eq(&scalar, 0).unwrap());
    assert!(arr.scalar_value_logically_eq(&scalar, 1).unwrap());
}

#[test]
fn scalar_value_logical_eq_null() {
    let arr = Array::from_options::<PhysicalI32>(vec![Some(1), None, Some(3)]);
    let scalar = ScalarValue::Null;

    assert!(!arr.scalar_value_logically_eq(&scalar, 0).unwrap());
    assert!(arr.scalar_value_logically_eq(&scalar, 1).unwrap());
}

#[test]
fn select_then_read_through_checked_select() {
    let mut arr = abc();
    arr.select(vec![0, 2]).unwrap();
    arr.select(vec![1, 1, 0]).unwrap();

    assert_eq!(arr.physical_type(), PhysicalType::Dictionary);
    assert!(arr.is_dictionary());
    assert_eq!(arr.logical_len(), 3);
    assert_eq!(text("c"), arr.logical_value(0).unwrap());
    assert_eq!(text("c"), arr.logical_value(1).unwrap());
    assert_eq!(text("a"), arr.logical_value(2).unwrap());
    assert_eq!(
        arr.logical_value(3),
        Err(RayexecError::OutOfBounds { index: 3, len: 3 })
    );
    assert_eq!(arr.selection_vector().unwrap().to_vec(), vec![2, 2, 0]);
}

#[test]
fn select_rejects_index_out_of_bounds_and_leaves_array() {
    let mut arr = abc();
    let before = abc();
    assert_eq!(
        arr.select(vec![0, 3, 7]),
        Err(RayexecError::OutOfBounds { index: 3, len: 3 })
    );
    assert_eq!(arr, before);
    assert!(!arr.is_dictionary());
}

#[test]
fn compose_select_law_on_values() {
    let s1 = vec![3usize, 1, 1, 0];
    let s2 = vec![2usize, 0, 3];
    let mut twice = Array::from_values::<PhysicalI32>(vec![10, 20, 30, 40]);
    twice.select(s1.clone()).unwrap();
    twice.select(s2.clone()).unwrap();

    let composed = SelectionVector::from_vec(s1)
        .compose(&SelectionVector::from_vec(s2))
        .unwrap();
    assert_eq!(composed.to_vec(), vec![1, 3, 0]);
    let mut once = Array::from_values::<PhysicalI32>(vec![10, 20, 30, 40]);
    once.select(composed.to_vec()).unwrap();

    assert_eq!(twice.logical_len(), once.logical_len());
    for i in 0..3 {
        assert_eq!(twice.logical_value(i), once.logical_value(i));
    }
    assert_eq!(twice.logical_value(0).unwrap(), ScalarValue::Int32(20));
    assert_eq!(twice.logical_value(1).unwrap(), ScalarValue::Int32(40));
    assert_eq!(twice.logical_value(2).unwrap(), ScalarValue::Int32(10));
}

#[test]
fn lengths_agree_in_flat_and_dictionary_arrays() {
    let mut arr = Array::from_options::<PhysicalI64>(vec![Some(1), None, Some(3), Some(4)]);
    assert_eq!(arr.validity().len(), arr.capacity());
    assert_eq!(arr.logical_len(), 4);
    assert_eq!(arr.array_data().len(), 4);
    arr.select(vec![1, 1, 0, 3, 2, 2]).unwrap();
    assert_eq!(arr.validity().len(), arr.capacity());
    assert_eq!(arr.logical_len(), 6);
    assert_eq!(arr.selection_vector().unwrap().len(), 6);
    assert_eq!(arr.array_data().len(), 4);
    assert!(arr.selection_vector().unwrap().all_below(4));
    assert_eq!(arr.is_valid(0), Some(false));
    assert_eq!(arr.is_valid(2), Some(true));
    assert_eq!(arr.is_valid(6), None);
}

#[test]
fn round_trip_of_options() {
    let values = vec![Some(7i32), None, Some(-3), None, Some(0)];
    let arr = Array::from_options::<PhysicalI32>(values.clone());
    for (i, v) in values.iter().enumerate() {
        let expected = match v {
            Some(v) => ScalarValue::Int32(*v),
            None => ScalarValue::Null,
        };
        assert_eq!(arr.logical_value(i).unwrap(), expected);
    }
    // The slot of a null row holds the zero of the type.
    assert_eq!(arr.physical_scalar(1).unwrap(), ScalarValue::Int32(0));
}

#[test]
fn round_trip_of_optional_text() {
    let arr = Array::from_option_strs(&vec![Some("x"), None, Some("a longer text than twelve")])
        .unwrap();
    assert_eq!(arr.logical_value(0).unwrap(), text("x"));
    assert_eq!(arr.logical_value(1).unwrap(), ScalarValue::Null);
    assert_eq!(
        arr.logical_value(2).unwrap(),
        text("a longer text than twelve")
    );
}

#[test]
fn broadcast_law_for_scalars() {
    let values = vec![
        ScalarValue::Boolean(true),
        ScalarValue::Int8(-8),
        ScalarValue::UInt64(u64::MAX),
        ScalarValue::Int128(i128::MIN),
        ScalarValue::Float32(1.5f32.to_bits()),
        ScalarValue::Float64(2.25f64.to_bits()),
        ScalarValue::Date32(19000),
        ScalarValue::Decimal64(Decimal64Scalar { precision: 10, scale: 2, value: 12345 }),
        ScalarValue::Timestamp(TimestampScalar { unit: TimeUnit::Millisecond, value: 99 }),
        ScalarValue::Interval(Interval { months: 1, days: 2, nanos: 3 }),
        text("hello, broadcast world"),
        ScalarValue::Binary(vec![0, 159, 146, 150]),
    ];
    for v in values.iter() {
        let arr = v.as_array(4).unwrap();
        assert_eq!(arr.logical_len(), 4);
        assert_eq!(arr.array_data().len(), 1);
        assert_eq!(arr.datatype(), &v.datatype());
        for i in 0..4 {
            assert_eq!(&arr.logical_value(i).unwrap(), v);
        }
        assert!(arr.logical_value(4).is_err());
    }
    let nulls = ScalarValue::Null.as_array(3).unwrap();
    assert_eq!(nulls.logical_value(2).unwrap(), ScalarValue::Null);
    assert_eq!(
        ScalarValue::List(vec![ScalarValue::Int32(1)]).as_array(2),
        Err(RayexecError::NotImplemented)
    );
}

#[test]
fn try_new_makes_zeroed_valid_rows() {
    let arr = Array::try_new(DataType::Int32, 3).unwrap();
    assert_eq!(arr.logical_len(), 3);
    assert_eq!(arr.capacity(), 3);
    assert!(arr.validity().is_all_valid());
    assert_eq!(arr.physical_type(), PhysicalType::Int32);
    assert_eq!(arr.logical_value(2).unwrap(), ScalarValue::Int32(0));

    let text_arr = Array::try_new(DataType::Utf8, 2).unwrap();
    assert_eq!(text_arr.physical_type(), PhysicalType::Utf8);
    assert_eq!(text_arr.logical_value(1).unwrap(), text(""));

    let list_type = DataType::List(ListTypeMeta { datatype: Box::new(DataType::Int64) });
    let list_arr = Array::try_new(list_type, 2).unwrap();
    assert_eq!(list_arr.physical_type(), PhysicalType::List);
    assert_eq!(list_arr.logical_value(0).unwrap(), ScalarValue::List(vec![]));

    let struct_type = DataType::Struct(StructTypeMeta { fields: vec![DataType::Int8] });
    assert_eq!(Array::try_new(struct_type, 1), Err(RayexecError::NotImplemented));
}

#[test]
fn typed_null_array_is_one_row_read_by_all() {
    let arr = Array::new_typed_null_array(DataType::Int16, 5).unwrap();
    assert_eq!(arr.logical_len(), 5);
    assert_eq!(arr.array_data().len(), 1);
    assert_eq!(arr.is_valid(4), Some(false));
    assert_eq!(arr.logical_value(4).unwrap(), ScalarValue::Null);
    assert_eq!(arr.datatype(), &DataType::Int16);

    let untyped = Array::new_untyped_null_array(2);
    assert_eq!(untyped.datatype(), &DataType::Null);
    assert_eq!(untyped.logical_value(1).unwrap(), ScalarValue::Null);
    assert!(untyped.has_selection());
}

#[test]
fn put_validity_checks_the_length() {
    let mut arr = Array::from_values::<PhysicalI32>(vec![1, 2, 3]);
    assert_eq!(
        arr.put_validity(Validity::new_all_invalid(2)),
        Err(RayexecError::InvalidValidityLength { got: 2, want: 3 })
    );
    assert_eq!(arr.is_valid(0), Some(true));
    arr.put_validity(Validity::new_all_invalid(3)).unwrap();
    assert_eq!(arr.is_valid(0), Some(false));
    assert_eq!(arr.logical_value(0).unwrap(), ScalarValue::Null);
}

#[test]
fn set_physical_validity_allocates_lazily() {
    let mut arr = Array::from_values::<PhysicalI32>(vec![1, 2, 3]);
    assert!(arr.validity().is_all_valid());
    arr.set_physical_validity(1, true);
    assert!(arr.validity().is_all_valid());
    arr.set_physical_validity(1, false);
    assert!(!arr.validity().is_all_valid());
    assert_eq!(arr.is_valid(1), Some(false));
    assert_eq!(arr.is_valid(2), Some(true));
    assert_eq!(arr.validity().count_valid(), 2);
}

#[test]
fn slice_shares_the_buffers() {
    let arr = Array::from_options::<PhysicalI32>(vec![Some(1), None, Some(3), Some(4)]);
    let sliced = arr.try_slice(1, 2).unwrap();
    assert_eq!(sliced.logical_len(), 2);
    assert_eq!(sliced.logical_value(0).unwrap(), ScalarValue::Null);
    assert_eq!(sliced.logical_value(1).unwrap(), ScalarValue::Int32(3));
    // Same allocation: the slice is another handle, not a copy.
    match (arr.array_data(), sliced.array_data()) {
        (ArrayData2::Int32(a), ArrayData2::Int32(b)) => assert!(Arc::ptr_eq(a, b)),
        _ => panic!("expected 32-bit integer storage"),
    }
    assert_eq!(
        arr.try_slice(3, 2).unwrap_err(),
        RayexecError::OutOfBounds { index: 5, len: 4 }
    );
    assert_eq!(
        arr.try_slice(usize::MAX, 2).unwrap_err(),
        RayexecError::OutOfBounds { index: usize::MAX, len: 4 }
    );
    let again = sliced.slice(1, 1);
    assert_eq!(again.logical_value(0).unwrap(), ScalarValue::Int32(3));
}

#[test]
fn physical_scalar_follows_the_type_table() {
    let data = PhysicalI64::store(vec![1234]);
    let decimal = Array::new_with_array_data(
        DataType::Decimal64(DecimalTypeMeta { precision: 6, scale: 2 }),
        data.share(),
    );
    assert_eq!(
        decimal.physical_scalar(0).unwrap(),
        ScalarValue::Decimal64(Decimal64Scalar { precision: 6, scale: 2, value: 1234 })
    );
    let stamp = Array::new_with_array_data(
        DataType::Timestamp(TimestampTypeMeta { unit: TimeUnit::Second }),
        data.share(),
    );
    assert_eq!(
        stamp.physical_scalar(0).unwrap(),
        ScalarValue::Timestamp(TimestampScalar { unit: TimeUnit::Second, value: 1234 })
    );
    let date = Array::new_with_array_data(DataType::Date64, data.share());
    assert_eq!(date.physical_scalar(0).unwrap(), ScalarValue::Date64(1234));
    assert_eq!(
        date.physical_scalar(1),
        Err(RayexecError::OutOfBounds { index: 1, len: 1 })
    );
    let wrong = Array::new_with_array_data(DataType::Int32, data);
    assert_eq!(
        wrong.physical_scalar(0),
        Err(RayexecError::PhysicalTypeMismatch {
            expected: PhysicalType::Int32,
            got: PhysicalType::Int64
        })
    );
    let bools = Array::from_values::<PhysicalBool>(vec![true, false, true]);
    assert_eq!(bools.physical_scalar(1).unwrap(), ScalarValue::Boolean(false));
    assert_eq!(bools.physical_scalar(2).unwrap(), ScalarValue::Boolean(true));
}

#[test]
fn text_that_is_not_utf8_is_reported() {
    let mut german = GermanVarlenStorage::with_metadata_capacity(2);
    german.try_push(b"ok").unwrap();
    german.try_push(&[0xff, 0xfe]).unwrap();
    let data = ArrayData2::Binary(BinaryData::German(Arc::new(german)));
    let arr = Array::new_with_array_data(DataType::Utf8, data.share());
    assert_eq!(arr.logical_value(0).unwrap(), text("ok"));
    assert_eq!(arr.logical_value(1), Err(RayexecError::InvalidUtf8));
    let bytes = Array::new_with_array_data(DataType::Binary, data);
    assert_eq!(
        bytes.logical_value(1).unwrap(),
        ScalarValue::Binary(vec![0xff, 0xfe])
    );
}

#[test]
fn all_three_binary_layouts_read_alike() {
    let words: Vec<&[u8]> = vec![b"", b"short", b"exactly12byt", b"longer than twelve bytes"];
    let mut small = ContiguousVarlenStorage::<i32>::new();
    let mut large = ContiguousVarlenStorage::<i64>::new();
    let mut german = GermanVarlenStorage::with_metadata_capacity(4);
    for w in words.iter() {
        small.try_push(w).unwrap();
        large.try_push(w).unwrap();
        german.try_push(w).unwrap();
    }
    assert_eq!(small.data_size_bytes(), 41);
    assert_eq!(large.data_size_bytes(), 41);
    assert_eq!(german.data_size_bytes(), 24);
    let layouts = vec![
        BinaryData::Binary(Arc::new(small)),
        BinaryData::LargeBinary(Arc::new(large)),
        BinaryData::German(Arc::new(german)),
    ];
    assert_eq!(layouts[0].binary_data_size_bytes(), 41);
    assert_eq!(layouts[2].binary_data_size_bytes(), 24);
    for layout in layouts {
        assert_eq!(layout.len(), 4);
        let arr = Array::new_with_array_data(DataType::Binary, ArrayData2::Binary(layout));
        for (i, w) in words.iter().enumerate() {
            assert_eq!(arr.logical_value(i).unwrap(), ScalarValue::Binary(w.to_vec()));
            assert!(arr
                .scalar_value_logically_eq(&ScalarValue::Binary(w.to_vec()), i)
                .unwrap());
        }
        assert!(!arr
            .scalar_value_logically_eq(&ScalarValue::Binary(b"longer than twelve bytez".to_vec()), 3)
            .unwrap());
        assert!(!arr
            .scalar_value_logically_eq(&ScalarValue::Binary(b"Longer than twelve bytes".to_vec()), 3)
            .unwrap());
    }
}

#[test]
fn scalar_equality_is_type_sensitive() {
    let arr = Array::from_values::<PhysicalI32>(vec![1, 2, 3]);
    assert_eq!(
        arr.scalar_value_logically_eq(&ScalarValue::Int64(2), 1),
        Err(RayexecError::PhysicalTypeMismatch {
            expected: PhysicalType::Int64,
            got: PhysicalType::Int32
        })
    );
    assert_eq!(
        arr.scalar_value_logically_eq(&ScalarValue::Int32(2), 3),
        Err(RayexecError::OutOfBounds { index: 3, len: 3 })
    );
    assert!(arr.scalar_value_logically_eq(&ScalarValue::Date32(3), 2).unwrap());
    assert_eq!(
        arr.scalar_value_logically_eq(&ScalarValue::List(vec![]), 0),
        Err(RayexecError::NotImplemented)
    );
    let with_null = Array::from_options::<PhysicalI32>(vec![None]);
    assert!(!with_null
        .scalar_value_logically_eq(&ScalarValue::Int32(0), 0)
        .unwrap());
}

#[test]
fn floating_point_equality_follows_ieee() {
    let nan = f32::NAN.to_bits();
    let arr = Array::from_values::<PhysicalF32>(vec![0.0f32.to_bits(), nan, 1.5f32.to_bits()]);
    assert!(arr
        .scalar_value_logically_eq(&ScalarValue::Float32((-0.0f32).to_bits()), 0)
        .unwrap());
    assert!(!arr
        .scalar_value_logically_eq(&ScalarValue::Float32(nan), 1)
        .unwrap());
    assert!(arr
        .scalar_value_logically_eq(&ScalarValue::Float32(1.5f32.to_bits()), 2)
        .unwrap());
    assert!(!arr
        .scalar_value_logically_eq(&ScalarValue::Float32(1.25f32.to_bits()), 2)
        .unwrap());
}

#[test]
fn list_rows_read_their_elements() {
    let child = Array::from_values::<PhysicalI32>(vec![1, 2, 3, 4, 5]);
    let metadata = vec![
        ListItemMetadata { offset: 0, len: 2 },
        ListItemMetadata { offset: 2, len: 0 },
        ListItemMetadata { offset: 2, len: 3 },
    ];
    let storage = ListStorage::try_new(metadata, child).unwrap();
    let list_type = DataType::List(ListTypeMeta { datatype: Box::new(DataType::Int32) });
    let arr = Array::new_with_array_data(list_type, ArrayData2::List(Arc::new(storage)));
    assert_eq!(
        arr.logical_value(0).unwrap(),
        ScalarValue::List(vec![ScalarValue::Int32(1), ScalarValue::Int32(2)])
    );
    assert_eq!(arr.logical_value(1).unwrap(), ScalarValue::List(vec![]));
    assert_eq!(
        arr.logical_value(2).unwrap(),
        ScalarValue::List(vec![
            ScalarValue::Int32(3),
            ScalarValue::Int32(4),
            ScalarValue::Int32(5)
        ])
    );

    let child = Array::from_values::<PhysicalI32>(vec![1, 2]);
    let bad = vec![
        ListItemMetadata { offset: 0, len: 2 },
        ListItemMetadata { offset: 1, len: 2 },
    ];
    assert_eq!(
        ListStorage::try_new(bad, child).unwrap_err(),
        RayexecError::OutOfBounds { index: 1, len: 2 }
    );
}

#[test]
fn put_selection_replaces_the_selection() {
    let mut arr = Array::from_options::<PhysicalI32>(vec![Some(1), None, Some(3)]);
    arr.put_selection(SelectionVector::from_vec(vec![2, 2]));
    assert_eq!(arr.logical_value(0).unwrap(), ScalarValue::Int32(3));
    arr.put_selection(SelectionVector::from_vec(vec![1, 0, 2]));
    assert_eq!(arr.logical_value(0).unwrap(), ScalarValue::Null);
    assert_eq!(arr.logical_value(1).unwrap(), ScalarValue::Int32(1));
    assert_eq!(arr.logical_len(), 3);
    let data = arr.into_array_data();
    assert_eq!(data.physical_type(), PhysicalType::Int32);
    assert!(!data.is_empty());
}

#[test]
fn clone_shares_the_data() {
    let mut arr = Array::from_options::<PhysicalI32>(vec![Some(1), None, Some(3)]);
    arr.select(vec![2, 1]).unwrap();
    let copy = arr.clone();
    assert_eq!(copy, arr);
    assert_eq!(copy.logical_value(0).unwrap(), ScalarValue::Int32(3));
    assert_eq!(copy.logical_value(1).unwrap(), ScalarValue::Null);
    match (arr.array_data(), copy.array_data()) {
        (ArrayData2::Int32(a), ArrayData2::Int32(b)) => assert!(Arc::ptr_eq(a, b)),
        _ => panic!("expected 32-bit integer storage"),
    }
}

#[test]
fn empty_arrays() {
    let mut arr = Array::from_values::<PhysicalI32>(vec![]);
    assert_eq!(arr.logical_len(), 0);
    assert_eq!(arr.is_valid(0), None);
    assert_eq!(
        arr.logical_value(0),
        Err(RayexecError::OutOfBounds { index: 0, len: 0 })
    );
    assert_eq!(arr.select(vec![]), Ok(()));
    assert!(arr.is_dictionary());
    assert_eq!(arr.logical_len(), 0);
    assert_eq!(
        arr.select(vec![0]),
        Err(RayexecError::OutOfBounds { index: 0, len: 0 })
    );
    let sliced = arr.try_slice(0, 0).unwrap();
    assert_eq!(sliced.logical_len(), 0);
    let none = Array::new_typed_null_array(DataType::Utf8, 0).unwrap();
    assert_eq!(none.logical_len(), 0);
    assert_eq!(none.array_data().len(), 1);
    let zero = Array::try_new(DataType::Boolean, 0).unwrap();
    assert_eq!(zero.capacity(), 0);
    assert!(zero.array_data().is_empty());
}
