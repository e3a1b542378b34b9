use rayexec_execution::arrays::array::{Array, ArrayData2, BinaryData};
use rayexec_execution::arrays::datatype::{DataType, DataTypeId};
use rayexec_execution::arrays::physical_type::{PhysicalI32, PhysicalI64, PhysicalType};
use rayexec_execution::arrays::scalar::ScalarValue;
use rayexec_execution::arrays::storage::GermanVarlenStorage;
use rayexec_execution::error::RayexecError;
use rayexec_execution::functions::length::{
    bit_length, byte_length, char_length, BitLength, BitLengthImpl, ByteLength, ByteLengthImpl,
    Length, StrLengthImpl,
};
use std::sync::Arc;

#[test]
fn lengths_of_text_with_a_wide_character() {
    let arr = Array::from_strs(&vec!["😀ab"]).unwrap();
    let chars = StrLengthImpl.execute(&[&arr]).unwrap();
    assert_eq!(chars.logical_value(0).unwrap(), ScalarValue::Int64(3));
    let bytes = ByteLengthImpl.execute(&[&arr]).unwrap();
    assert_eq!(bytes.logical_value(0).unwrap(), ScalarValue::Int64(6));
    let bits = BitLengthImpl.execute(&[&arr]).unwrap();
    assert_eq!(bits.logical_value(0).unwrap(), ScalarValue::Int64(48));
}

#[test]
fn length_counts_scalars_bytes_and_bits() {
    for s in ["", "a", "héllo", "日本語", "😀ab", "a longer text, beyond the inline size"] {
        let bytes = s.as_bytes();
        assert_eq!(char_length(bytes), Ok(s.chars().count() as i64));
        assert_eq!(byte_length(bytes), s.len() as i64);
        assert_eq!(bit_length(bytes), 8 * byte_length(bytes));
    }
    assert_eq!(char_length(&[0xc3, 0x28]), Err(RayexecError::InvalidUtf8));
    assert_eq!(byte_length(&[0xc3, 0x28]), 2);
}

#[test]
fn length_kernels_propagate_nulls() {
    let arr = Array::from_option_strs(&vec![Some("ab"), None, Some("")]).unwrap();
    let out = StrLengthImpl.execute(&[&arr]).unwrap();
    assert_eq!(
        out,
        Array::from_options::<PhysicalI64>(vec![Some(2), None, Some(0)])
    );
    assert_eq!(out.datatype(), &DataType::Int64);
}

#[test]
fn length_kernels_follow_a_selection() {
    let mut arr = Array::from_strs(&vec!["a", "bb", "ccc"]).unwrap();
    arr.select(vec![2, 0, 2, 1]).unwrap();
    let out = ByteLengthImpl.execute(&[&arr]).unwrap();
    assert_eq!(out, Array::from_values::<PhysicalI64>(vec![3, 1, 3, 2]));
}

#[test]
fn byte_length_applies_to_bytes() {
    let arr = Array::from_binaries(&vec![vec![0xff, 0xfe, 0xfd], vec![]]).unwrap();
    let out = ByteLengthImpl.execute(&[&arr]).unwrap();
    assert_eq!(out, Array::from_values::<PhysicalI64>(vec![3, 0]));
    let out = BitLengthImpl.execute(&[&arr]).unwrap();
    assert_eq!(out, Array::from_values::<PhysicalI64>(vec![24, 0]));
}

#[test]
fn length_of_invalid_text_is_an_error() {
    let mut german = GermanVarlenStorage::with_metadata_capacity(2);
    german.try_push(b"fine").unwrap();
    german.try_push(&[0x80]).unwrap();
    let data = ArrayData2::Binary(BinaryData::German(Arc::new(german)));
    let arr = Array::new_with_array_data(DataType::Utf8, data);
    assert_eq!(StrLengthImpl.execute(&[&arr]), Err(RayexecError::InvalidUtf8));
    assert!(ByteLengthImpl.execute(&[&arr]).is_ok());
}

#[test]
fn length_kernels_check_their_input() {
    let ints = Array::from_values::<PhysicalI32>(vec![1]);
    assert_eq!(
        StrLengthImpl.execute(&[&ints]),
        Err(RayexecError::PhysicalTypeMismatch {
            expected: PhysicalType::Binary,
            got: PhysicalType::Int32
        })
    );
    assert_eq!(
        BitLengthImpl.execute(&[]),
        Err(RayexecError::Arity { expected: 1, got: 0 })
    );
}

#[test]
fn length_planning() {
    assert_eq!(Length.name(), "length");
    assert_eq!(Length.aliases(), vec!["char_length", "character_length"]);
    assert_eq!(ByteLength.name(), "byte_length");
    assert_eq!(ByteLength.aliases(), vec!["octet_length"]);
    assert_eq!(BitLength.name(), "bit_length");
    assert!(BitLength.aliases().is_empty());
    assert_eq!(Length.signatures().len(), 1);
    assert_eq!(ByteLength.signatures().len(), 2);
    assert_eq!(BitLength.signatures()[1].positional_args, vec![DataTypeId::Binary]);
    assert_eq!(Length.return_type(), DataType::Int64);
    assert_eq!(Length.plan(&[DataType::Utf8]), Ok(StrLengthImpl));
    assert_eq!(
        Length.plan(&[DataType::Binary]),
        Err(RayexecError::InvalidInputTypes { first: DataTypeId::Binary, second: None })
    );
    assert_eq!(ByteLength.plan(&[DataType::Binary]), Ok(ByteLengthImpl));
    assert_eq!(BitLength.plan(&[DataType::Utf8]), Ok(BitLengthImpl));
    assert_eq!(
        BitLength.plan(&[DataType::Utf8, DataType::Utf8]),
        Err(RayexecError::Arity { expected: 1, got: 2 })
    );
    assert_eq!(
        ByteLength.plan(&[DataType::Int8]),
        Err(RayexecError::InvalidInputTypes { first: DataTypeId::Int8, second: None })
    );
}
