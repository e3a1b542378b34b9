//! The closed set of storage shapes.

use std::sync::Arc;
use vstd::prelude::*;

use crate::arrays::array::{spec_flat_scalar, ArrayData2};
use crate::arrays::datatype::{DataType, DataTypeView};
use crate::arrays::bitmap::Bitmap;
use crate::arrays::scalar::{Interval, ScalarValueView};
use crate::arrays::storage::{BooleanStorage, PrimitiveStorage};
use crate::error::RayexecError;

verus! {

/// The machine layout that a column's values are stored in.
///
/// `Utf8` and `Binary` share a storage shape and differ in how a value is
/// read. `Dictionary` is the layout of an array whose primary buffer holds
/// row indices into a source buffer.
#[derive(Debug, Clone, Copy, PartialEq, Eq, Hash, Structural)]
pub enum PhysicalType {
    UntypedNull,
    Boolean,
    Int8,
    Int16,
    Int32,
    Int64,
    Int128,
    UInt8,
    UInt16,
    UInt32,
    UInt64,
    UInt128,
    Float16,
    Float32,
    Float64,
    Interval,
    Binary,
    Utf8,
    List,
    Dictionary,
}

impl PhysicalType {
    /// Whether values of this layout are plain integers.
    pub open spec fn spec_is_integer(self) -> bool {
        self is Int8 || self is Int16 || self is Int32 || self is Int64 || self is Int128
            || self is UInt8 || self is UInt16 || self is UInt32 || self is UInt64
            || self is UInt128
    }

    /// The smallest integer that the layout holds.
    pub open spec fn spec_min(self) -> int
        recommends
            self.spec_is_integer(),
    {
        match self {
            PhysicalType::Int8 => i8::MIN as int,
            PhysicalType::Int16 => i16::MIN as int,
            PhysicalType::Int32 => i32::MIN as int,
            PhysicalType::Int64 => i64::MIN as int,
            PhysicalType::Int128 => i128::MIN as int,
            _ => 0,
        }
    }

    /// The largest integer that the layout holds.
    pub open spec fn spec_max(self) -> int
        recommends
            self.spec_is_integer(),
    {
        match self {
            PhysicalType::Int8 => i8::MAX as int,
            PhysicalType::Int16 => i16::MAX as int,
            PhysicalType::Int32 => i32::MAX as int,
            PhysicalType::Int64 => i64::MAX as int,
            PhysicalType::Int128 => i128::MAX as int,
            PhysicalType::UInt8 => u8::MAX as int,
            PhysicalType::UInt16 => u16::MAX as int,
            PhysicalType::UInt32 => u32::MAX as int,
            PhysicalType::UInt64 => u64::MAX as int,
            PhysicalType::UInt128 => u128::MAX as int,
            _ => 0,
        }
    }

    /// Whether values of this layout are plain integers.
    pub fn is_integer(&self) -> (b: bool)
        ensures
            b == self.spec_is_integer(),
    {
        match self {
            PhysicalType::Int8
            | PhysicalType::Int16
            | PhysicalType::Int32
            | PhysicalType::Int64
            | PhysicalType::Int128
            | PhysicalType::UInt8
            | PhysicalType::UInt16
            | PhysicalType::UInt32
            | PhysicalType::UInt64
            | PhysicalType::UInt128 => true,
            _ => false,
        }
    }
}


/// Binds a physical type to the element it stores and to typed access on
/// the storage that holds it.
pub trait PhysicalStorage {
    /// The element as stored.
    type Type: Copy;

    /// The physical type that the carrier stands for.
    spec fn spec_physical_type() -> PhysicalType;

    /// The stored elements of `data`, when `data` is storage of this
    /// physical type.
    spec fn spec_values(data: &ArrayData2) -> Seq<Self::Type>;

    /// Storage of this type has one element per physical row.
    proof fn lemma_values_len(data: &ArrayData2)
        requires
            data.spec_physical_type() == Self::spec_physical_type(),
        ensures
            Self::spec_values(data).len() == data.spec_len(),
    ;

    /// The physical type that the carrier stands for.
    fn physical_type() -> (p: PhysicalType)
        ensures
            p == Self::spec_physical_type(),
    ;

    /// The data type of a column built from elements of this kind.
    spec fn spec_datatype() -> DataTypeView;

    /// The scalar value that stands for a stored element, under
    /// [`PhysicalStorage::spec_datatype`].
    spec fn spec_scalar(v: Self::Type) -> ScalarValueView;

    /// Reading a row of storage of this type under its data type gives the
    /// scalar of the stored element.
    proof fn lemma_scalar(data: &ArrayData2, idx: int)
        requires
            data.spec_physical_type() == Self::spec_physical_type(),
            0 <= idx < data.spec_len(),
        ensures
            Self::spec_datatype().physical_type() == Some(Self::spec_physical_type()),
            spec_flat_scalar(Self::spec_datatype(), *data, idx) == Ok::<
                ScalarValueView,
                RayexecError,
            >(Self::spec_scalar(Self::spec_values(data)[idx])),
    ;

    /// The data type of a column built from elements of this kind.
    fn datatype() -> (r: DataType)
        ensures
            r@ == Self::spec_datatype(),
    ;

    /// The value written to a slot that nothing else is written to.
    spec fn spec_zero() -> Self::Type;

    /// The value written to a slot that nothing else is written to.
    fn zero() -> (v: Self::Type)
        ensures
            v == Self::spec_zero(),
    ;

    /// The element in physical row `idx` of `data`.
    fn get(data: &ArrayData2, idx: usize) -> (v: Self::Type)
        requires
            data.spec_physical_type() == Self::spec_physical_type(),
            idx < data.spec_len(),
        ensures
            v == Self::spec_values(data)[idx as int],
    ;

    /// Storage of this type that holds `values`.
    fn store(values: Vec<Self::Type>) -> (r: ArrayData2)
        ensures
            r.wf(),
            r.spec_physical_type() == Self::spec_physical_type(),
            r.spec_len() == values@.len(),
            Self::spec_values(&r) == values@,
    ;
}

/// Reads `data` as storage of physical type `S`, or fails with
/// `PhysicalTypeMismatch`.
pub fn check_storage<S: PhysicalStorage>(data: &ArrayData2) -> (r: Result<(), RayexecError>)
    ensures
        match r {
            Ok(_) => data.spec_physical_type() == S::spec_physical_type(),
            Err(e) => data.spec_physical_type() != S::spec_physical_type() && e
                == (RayexecError::PhysicalTypeMismatch {
                expected: S::spec_physical_type(),
                got: data.spec_physical_type(),
            }),
        },
{
    let expected = S::physical_type();
    let got = data.physical_type();
    if got == expected {
        Ok(())
    } else {
        Err(RayexecError::PhysicalTypeMismatch { expected, got })
    }
}

/// Carrier of the physical type of booleans.
#[derive(Debug, Clone, Copy, PartialEq, Eq)]
pub struct PhysicalBool;

impl PhysicalStorage for PhysicalBool {
    type Type = bool;

    open spec fn spec_physical_type() -> PhysicalType {
        PhysicalType::Boolean
    }

    open spec fn spec_datatype() -> DataTypeView {
        DataTypeView::Boolean
    }

    open spec fn spec_scalar(v: bool) -> ScalarValueView {
        ScalarValueView::Boolean(v)
    }

    proof fn lemma_scalar(data: &ArrayData2, idx: int) {
    }

    fn datatype() -> (r: DataType) {
        DataType::Boolean
    }

    open spec fn spec_values(data: &ArrayData2) -> Seq<bool> {
        match data {
            ArrayData2::Boolean(s) => s@,
            _ => Seq::empty(),
        }
    }

    proof fn lemma_values_len(data: &ArrayData2) {
    }

    fn physical_type() -> (p: PhysicalType) {
        PhysicalType::Boolean
    }

    open spec fn spec_zero() -> bool {
        false
    }

    fn zero() -> (v: bool) {
        false
    }

    fn get(data: &ArrayData2, idx: usize) -> (v: bool) {
        match data {
            ArrayData2::Boolean(s) => s.value(idx),
            _ => false,
        }
    }

    fn store(values: Vec<bool>) -> (r: ArrayData2) {
        ArrayData2::Boolean(Arc::new(BooleanStorage(Bitmap::from_bools(&values))))
    }
}

/// Carrier of the physical type of 8-bit signed integers.
#[derive(Debug, Clone, Copy, PartialEq, Eq)]
pub struct PhysicalI8;

impl PhysicalStorage for PhysicalI8 {
    type Type = i8;

    open spec fn spec_physical_type() -> PhysicalType {
        PhysicalType::Int8
    }

    open spec fn spec_datatype() -> DataTypeView {
        DataTypeView::Int8
    }

    open spec fn spec_scalar(v: i8) -> ScalarValueView {
        ScalarValueView::Int8(v)
    }

    proof fn lemma_scalar(data: &ArrayData2, idx: int) {
    }

    fn datatype() -> (r: DataType) {
        DataType::Int8
    }

    open spec fn spec_values(data: &ArrayData2) -> Seq<i8> {
        match data {
            ArrayData2::Int8(s) => s@,
            _ => Seq::empty(),
        }
    }

    proof fn lemma_values_len(data: &ArrayData2) {
    }

    fn physical_type() -> (p: PhysicalType) {
        PhysicalType::Int8
    }

    open spec fn spec_zero() -> i8 {
        0i8
    }

    fn zero() -> (v: i8) {
        0i8
    }

    fn get(data: &ArrayData2, idx: usize) -> (v: i8) {
        match data {
            ArrayData2::Int8(s) => s.as_slice()[idx],
            _ => 0i8,
        }
    }

    fn store(values: Vec<i8>) -> (r: ArrayData2) {
        ArrayData2::Int8(Arc::new(PrimitiveStorage::from_vec(values)))
    }
}

/// Carrier of the physical type of 16-bit signed integers.
#[derive(Debug, Clone, Copy, PartialEq, Eq)]
pub struct PhysicalI16;

impl PhysicalStorage for PhysicalI16 {
    type Type = i16;

    open spec fn spec_physical_type() -> PhysicalType {
        PhysicalType::Int16
    }

    open spec fn spec_datatype() -> DataTypeView {
        DataTypeView::Int16
    }

    open spec fn spec_scalar(v: i16) -> ScalarValueView {
        ScalarValueView::Int16(v)
    }

    proof fn lemma_scalar(data: &ArrayData2, idx: int) {
    }

    fn datatype() -> (r: DataType) {
        DataType::Int16
    }

    open spec fn spec_values(data: &ArrayData2) -> Seq<i16> {
        match data {
            ArrayData2::Int16(s) => s@,
            _ => Seq::empty(),
        }
    }

    proof fn lemma_values_len(data: &ArrayData2) {
    }

    fn physical_type() -> (p: PhysicalType) {
        PhysicalType::Int16
    }

    open spec fn spec_zero() -> i16 {
        0i16
    }

    fn zero() -> (v: i16) {
        0i16
    }

    fn get(data: &ArrayData2, idx: usize) -> (v: i16) {
        match data {
            ArrayData2::Int16(s) => s.as_slice()[idx],
            _ => 0i16,
        }
    }

    fn store(values: Vec<i16>) -> (r: ArrayData2) {
        ArrayData2::Int16(Arc::new(PrimitiveStorage::from_vec(values)))
    }
}

/// Carrier of the physical type of 32-bit signed integers.
#[derive(Debug, Clone, Copy, PartialEq, Eq)]
pub struct PhysicalI32;

impl PhysicalStorage for PhysicalI32 {
    type Type = i32;

    open spec fn spec_physical_type() -> PhysicalType {
        PhysicalType::Int32
    }

    open spec fn spec_datatype() -> DataTypeView {
        DataTypeView::Int32
    }

    open spec fn spec_scalar(v: i32) -> ScalarValueView {
        ScalarValueView::Int32(v)
    }

    proof fn lemma_scalar(data: &ArrayData2, idx: int) {
    }

    fn datatype() -> (r: DataType) {
        DataType::Int32
    }

    open spec fn spec_values(data: &ArrayData2) -> Seq<i32> {
        match data {
            ArrayData2::Int32(s) => s@,
            _ => Seq::empty(),
        }
    }

    proof fn lemma_values_len(data: &ArrayData2) {
    }

    fn physical_type() -> (p: PhysicalType) {
        PhysicalType::Int32
    }

    open spec fn spec_zero() -> i32 {
        0i32
    }

    fn zero() -> (v: i32) {
        0i32
    }

    fn get(data: &ArrayData2, idx: usize) -> (v: i32) {
        match data {
            ArrayData2::Int32(s) => s.as_slice()[idx],
            _ => 0i32,
        }
    }

    fn store(values: Vec<i32>) -> (r: ArrayData2) {
        ArrayData2::Int32(Arc::new(PrimitiveStorage::from_vec(values)))
    }
}

/// Carrier of the physical type of 64-bit signed integers.
#[derive(Debug, Clone, Copy, PartialEq, Eq)]
pub struct PhysicalI64;

impl PhysicalStorage for PhysicalI64 {
    type Type = i64;

    open spec fn spec_physical_type() -> PhysicalType {
        PhysicalType::Int64
    }

    open spec fn spec_datatype() -> DataTypeView {
        DataTypeView::Int64
    }

    open spec fn spec_scalar(v: i64) -> ScalarValueView {
        ScalarValueView::Int64(v)
    }

    proof fn lemma_scalar(data: &ArrayData2, idx: int) {
    }

    fn datatype() -> (r: DataType) {
        DataType::Int64
    }

    open spec fn spec_values(data: &ArrayData2) -> Seq<i64> {
        match data {
            ArrayData2::Int64(s) => s@,
            _ => Seq::empty(),
        }
    }

    proof fn lemma_values_len(data: &ArrayData2) {
    }

    fn physical_type() -> (p: PhysicalType) {
        PhysicalType::Int64
    }

    open spec fn spec_zero() -> i64 {
        0i64
    }

    fn zero() -> (v: i64) {
        0i64
    }

    fn get(data: &ArrayData2, idx: usize) -> (v: i64) {
        match data {
            ArrayData2::Int64(s) => s.as_slice()[idx],
            _ => 0i64,
        }
    }

    fn store(values: Vec<i64>) -> (r: ArrayData2) {
        ArrayData2::Int64(Arc::new(PrimitiveStorage::from_vec(values)))
    }
}

/// Carrier of the physical type of 128-bit signed integers.
#[derive(Debug, Clone, Copy, PartialEq, Eq)]
pub struct PhysicalI128;

impl PhysicalStorage for PhysicalI128 {
    type Type = i128;

    open spec fn spec_physical_type() -> PhysicalType {
        PhysicalType::Int128
    }

    open spec fn spec_datatype() -> DataTypeView {
        DataTypeView::Int128
    }

    open spec fn spec_scalar(v: i128) -> ScalarValueView {
        ScalarValueView::Int128(v)
    }

    proof fn lemma_scalar(data: &ArrayData2, idx: int) {
    }

    fn datatype() -> (r: DataType) {
        DataType::Int128
    }

    open spec fn spec_values(data: &ArrayData2) -> Seq<i128> {
        match data {
            ArrayData2::Int128(s) => s@,
            _ => Seq::empty(),
        }
    }

    proof fn lemma_values_len(data: &ArrayData2) {
    }

    fn physical_type() -> (p: PhysicalType) {
        PhysicalType::Int128
    }

    open spec fn spec_zero() -> i128 {
        0i128
    }

    fn zero() -> (v: i128) {
        0i128
    }

    fn get(data: &ArrayData2, idx: usize) -> (v: i128) {
        match data {
            ArrayData2::Int128(s) => s.as_slice()[idx],
            _ => 0i128,
        }
    }

    fn store(values: Vec<i128>) -> (r: ArrayData2) {
        ArrayData2::Int128(Arc::new(PrimitiveStorage::from_vec(values)))
    }
}

/// Carrier of the physical type of 8-bit unsigned integers.
#[derive(Debug, Clone, Copy, PartialEq, Eq)]
pub struct PhysicalU8;

impl PhysicalStorage for PhysicalU8 {
    type Type = u8;

    open spec fn spec_physical_type() -> PhysicalType {
        PhysicalType::UInt8
    }

    open spec fn spec_datatype() -> DataTypeView {
        DataTypeView::UInt8
    }

    open spec fn spec_scalar(v: u8) -> ScalarValueView {
        ScalarValueView::UInt8(v)
    }

    proof fn lemma_scalar(data: &ArrayData2, idx: int) {
    }

    fn datatype() -> (r: DataType) {
        DataType::UInt8
    }

    open spec fn spec_values(data: &ArrayData2) -> Seq<u8> {
        match data {
            ArrayData2::UInt8(s) => s@,
            _ => Seq::empty(),
        }
    }

    proof fn lemma_values_len(data: &ArrayData2) {
    }

    fn physical_type() -> (p: PhysicalType) {
        PhysicalType::UInt8
    }

    open spec fn spec_zero() -> u8 {
        0u8
    }

    fn zero() -> (v: u8) {
        0u8
    }

    fn get(data: &ArrayData2, idx: usize) -> (v: u8) {
        match data {
            ArrayData2::UInt8(s) => s.as_slice()[idx],
            _ => 0u8,
        }
    }

    fn store(values: Vec<u8>) -> (r: ArrayData2) {
        ArrayData2::UInt8(Arc::new(PrimitiveStorage::from_vec(values)))
    }
}

/// Carrier of the physical type of 16-bit unsigned integers.
#[derive(Debug, Clone, Copy, PartialEq, Eq)]
pub struct PhysicalU16;

impl PhysicalStorage for PhysicalU16 {
    type Type = u16;

    open spec fn spec_physical_type() -> PhysicalType {
        PhysicalType::UInt16
    }

    open spec fn spec_datatype() -> DataTypeView {
        DataTypeView::UInt16
    }

    open spec fn spec_scalar(v: u16) -> ScalarValueView {
        ScalarValueView::UInt16(v)
    }

    proof fn lemma_scalar(data: &ArrayData2, idx: int) {
    }

    fn datatype() -> (r: DataType) {
        DataType::UInt16
    }

    open spec fn spec_values(data: &ArrayData2) -> Seq<u16> {
        match data {
            ArrayData2::UInt16(s) => s@,
            _ => Seq::empty(),
        }
    }

    proof fn lemma_values_len(data: &ArrayData2) {
    }

    fn physical_type() -> (p: PhysicalType) {
        PhysicalType::UInt16
    }

    open spec fn spec_zero() -> u16 {
        0u16
    }

    fn zero() -> (v: u16) {
        0u16
    }

    fn get(data: &ArrayData2, idx: usize) -> (v: u16) {
        match data {
            ArrayData2::UInt16(s) => s.as_slice()[idx],
            _ => 0u16,
        }
    }

    fn store(values: Vec<u16>) -> (r: ArrayData2) {
        ArrayData2::UInt16(Arc::new(PrimitiveStorage::from_vec(values)))
    }
}

/// Carrier of the physical type of 32-bit unsigned integers.
#[derive(Debug, Clone, Copy, PartialEq, Eq)]
pub struct PhysicalU32;

impl PhysicalStorage for PhysicalU32 {
    type Type = u32;

    open spec fn spec_physical_type() -> PhysicalType {
        PhysicalType::UInt32
    }

    open spec fn spec_datatype() -> DataTypeView {
        DataTypeView::UInt32
    }

    open spec fn spec_scalar(v: u32) -> ScalarValueView {
        ScalarValueView::UInt32(v)
    }

    proof fn lemma_scalar(data: &ArrayData2, idx: int) {
    }

    fn datatype() -> (r: DataType) {
        DataType::UInt32
    }

    open spec fn spec_values(data: &ArrayData2) -> Seq<u32> {
        match data {
            ArrayData2::UInt32(s) => s@,
            _ => Seq::empty(),
        }
    }

    proof fn lemma_values_len(data: &ArrayData2) {
    }

    fn physical_type() -> (p: PhysicalType) {
        PhysicalType::UInt32
    }

    open spec fn spec_zero() -> u32 {
        0u32
    }

    fn zero() -> (v: u32) {
        0u32
    }

    fn get(data: &ArrayData2, idx: usize) -> (v: u32) {
        match data {
            ArrayData2::UInt32(s) => s.as_slice()[idx],
            _ => 0u32,
        }
    }

    fn store(values: Vec<u32>) -> (r: ArrayData2) {
        ArrayData2::UInt32(Arc::new(PrimitiveStorage::from_vec(values)))
    }
}

/// Carrier of the physical type of 64-bit unsigned integers.
#[derive(Debug, Clone, Copy, PartialEq, Eq)]
pub struct PhysicalU64;

impl PhysicalStorage for PhysicalU64 {
    type Type = u64;

    open spec fn spec_physical_type() -> PhysicalType {
        PhysicalType::UInt64
    }

    open spec fn spec_datatype() -> DataTypeView {
        DataTypeView::UInt64
    }

    open spec fn spec_scalar(v: u64) -> ScalarValueView {
        ScalarValueView::UInt64(v)
    }

    proof fn lemma_scalar(data: &ArrayData2, idx: int) {
    }

    fn datatype() -> (r: DataType) {
        DataType::UInt64
    }

    open spec fn spec_values(data: &ArrayData2) -> Seq<u64> {
        match data {
            ArrayData2::UInt64(s) => s@,
            _ => Seq::empty(),
        }
    }

    proof fn lemma_values_len(data: &ArrayData2) {
    }

    fn physical_type() -> (p: PhysicalType) {
        PhysicalType::UInt64
    }

    open spec fn spec_zero() -> u64 {
        0u64
    }

    fn zero() -> (v: u64) {
        0u64
    }

    fn get(data: &ArrayData2, idx: usize) -> (v: u64) {
        match data {
            ArrayData2::UInt64(s) => s.as_slice()[idx],
            _ => 0u64,
        }
    }

    fn store(values: Vec<u64>) -> (r: ArrayData2) {
        ArrayData2::UInt64(Arc::new(PrimitiveStorage::from_vec(values)))
    }
}

/// Carrier of the physical type of 128-bit unsigned integers.
#[derive(Debug, Clone, Copy, PartialEq, Eq)]
pub struct PhysicalU128;

impl PhysicalStorage for PhysicalU128 {
    type Type = u128;

    open spec fn spec_physical_type() -> PhysicalType {
        PhysicalType::UInt128
    }

    open spec fn spec_datatype() -> DataTypeView {
        DataTypeView::UInt128
    }

    open spec fn spec_scalar(v: u128) -> ScalarValueView {
        ScalarValueView::UInt128(v)
    }

    proof fn lemma_scalar(data: &ArrayData2, idx: int) {
    }

    fn datatype() -> (r: DataType) {
        DataType::UInt128
    }

    open spec fn spec_values(data: &ArrayData2) -> Seq<u128> {
        match data {
            ArrayData2::UInt128(s) => s@,
            _ => Seq::empty(),
        }
    }

    proof fn lemma_values_len(data: &ArrayData2) {
    }

    fn physical_type() -> (p: PhysicalType) {
        PhysicalType::UInt128
    }

    open spec fn spec_zero() -> u128 {
        0u128
    }

    fn zero() -> (v: u128) {
        0u128
    }

    fn get(data: &ArrayData2, idx: usize) -> (v: u128) {
        match data {
            ArrayData2::UInt128(s) => s.as_slice()[idx],
            _ => 0u128,
        }
    }

    fn store(values: Vec<u128>) -> (r: ArrayData2) {
        ArrayData2::UInt128(Arc::new(PrimitiveStorage::from_vec(values)))
    }
}

/// Carrier of the physical type of half-precision floating-point values, as bit patterns.
#[derive(Debug, Clone, Copy, PartialEq, Eq)]
pub struct PhysicalF16;

impl PhysicalStorage for PhysicalF16 {
    type Type = u16;

    open spec fn spec_physical_type() -> PhysicalType {
        PhysicalType::Float16
    }

    open spec fn spec_datatype() -> DataTypeView {
        DataTypeView::Float16
    }

    open spec fn spec_scalar(v: u16) -> ScalarValueView {
        ScalarValueView::Float16(v)
    }

    proof fn lemma_scalar(data: &ArrayData2, idx: int) {
    }

    fn datatype() -> (r: DataType) {
        DataType::Float16
    }

    open spec fn spec_values(data: &ArrayData2) -> Seq<u16> {
        match data {
            ArrayData2::Float16(s) => s@,
            _ => Seq::empty(),
        }
    }

    proof fn lemma_values_len(data: &ArrayData2) {
    }

    fn physical_type() -> (p: PhysicalType) {
        PhysicalType::Float16
    }

    open spec fn spec_zero() -> u16 {
        0u16
    }

    fn zero() -> (v: u16) {
        0u16
    }

    fn get(data: &ArrayData2, idx: usize) -> (v: u16) {
        match data {
            ArrayData2::Float16(s) => s.as_slice()[idx],
            _ => 0u16,
        }
    }

    fn store(values: Vec<u16>) -> (r: ArrayData2) {
        ArrayData2::Float16(Arc::new(PrimitiveStorage::from_vec(values)))
    }
}

/// Carrier of the physical type of single-precision floating-point values, as bit patterns.
#[derive(Debug, Clone, Copy, PartialEq, Eq)]
pub struct PhysicalF32;

impl PhysicalStorage for PhysicalF32 {
    type Type = u32;

    open spec fn spec_physical_type() -> PhysicalType {
        PhysicalType::Float32
    }

    open spec fn spec_datatype() -> DataTypeView {
        DataTypeView::Float32
    }

    open spec fn spec_scalar(v: u32) -> ScalarValueView {
        ScalarValueView::Float32(v)
    }

    proof fn lemma_scalar(data: &ArrayData2, idx: int) {
    }

    fn datatype() -> (r: DataType) {
        DataType::Float32
    }

    open spec fn spec_values(data: &ArrayData2) -> Seq<u32> {
        match data {
            ArrayData2::Float32(s) => s@,
            _ => Seq::empty(),
        }
    }

    proof fn lemma_values_len(data: &ArrayData2) {
    }

    fn physical_type() -> (p: PhysicalType) {
        PhysicalType::Float32
    }

    open spec fn spec_zero() -> u32 {
        0u32
    }

    fn zero() -> (v: u32) {
        0u32
    }

    fn get(data: &ArrayData2, idx: usize) -> (v: u32) {
        match data {
            ArrayData2::Float32(s) => s.as_slice()[idx],
            _ => 0u32,
        }
    }

    fn store(values: Vec<u32>) -> (r: ArrayData2) {
        ArrayData2::Float32(Arc::new(PrimitiveStorage::from_vec(values)))
    }
}

/// Carrier of the physical type of double-precision floating-point values, as bit patterns.
#[derive(Debug, Clone, Copy, PartialEq, Eq)]
pub struct PhysicalF64;

impl PhysicalStorage for PhysicalF64 {
    type Type = u64;

    open spec fn spec_physical_type() -> PhysicalType {
        PhysicalType::Float64
    }

    open spec fn spec_datatype() -> DataTypeView {
        DataTypeView::Float64
    }

    open spec fn spec_scalar(v: u64) -> ScalarValueView {
        ScalarValueView::Float64(v)
    }

    proof fn lemma_scalar(data: &ArrayData2, idx: int) {
    }

    fn datatype() -> (r: DataType) {
        DataType::Float64
    }

    open spec fn spec_values(data: &ArrayData2) -> Seq<u64> {
        match data {
            ArrayData2::Float64(s) => s@,
            _ => Seq::empty(),
        }
    }

    proof fn lemma_values_len(data: &ArrayData2) {
    }

    fn physical_type() -> (p: PhysicalType) {
        PhysicalType::Float64
    }

    open spec fn spec_zero() -> u64 {
        0u64
    }

    fn zero() -> (v: u64) {
        0u64
    }

    fn get(data: &ArrayData2, idx: usize) -> (v: u64) {
        match data {
            ArrayData2::Float64(s) => s.as_slice()[idx],
            _ => 0u64,
        }
    }

    fn store(values: Vec<u64>) -> (r: ArrayData2) {
        ArrayData2::Float64(Arc::new(PrimitiveStorage::from_vec(values)))
    }
}

/// Carrier of the physical type of intervals.
#[derive(Debug, Clone, Copy, PartialEq, Eq)]
pub struct PhysicalInterval;

impl PhysicalStorage for PhysicalInterval {
    type Type = Interval;

    open spec fn spec_physical_type() -> PhysicalType {
        PhysicalType::Interval
    }

    open spec fn spec_datatype() -> DataTypeView {
        DataTypeView::Interval
    }

    open spec fn spec_scalar(v: Interval) -> ScalarValueView {
        ScalarValueView::Interval(v)
    }

    proof fn lemma_scalar(data: &ArrayData2, idx: int) {
    }

    fn datatype() -> (r: DataType) {
        DataType::Interval
    }

    open spec fn spec_values(data: &ArrayData2) -> Seq<Interval> {
        match data {
            ArrayData2::Interval(s) => s@,
            _ => Seq::empty(),
        }
    }

    proof fn lemma_values_len(data: &ArrayData2) {
    }

    fn physical_type() -> (p: PhysicalType) {
        PhysicalType::Interval
    }

    open spec fn spec_zero() -> Interval {
        Interval { months: 0, days: 0, nanos: 0 }
    }

    fn zero() -> (v: Interval) {
        Interval { months: 0, days: 0, nanos: 0 }
    }

    fn get(data: &ArrayData2, idx: usize) -> (v: Interval) {
        match data {
            ArrayData2::Interval(s) => s.as_slice()[idx],
            _ => Interval { months: 0, days: 0, nanos: 0 },
        }
    }

    fn store(values: Vec<Interval>) -> (r: ArrayData2) {
        ArrayData2::Interval(Arc::new(PrimitiveStorage::from_vec(values)))
    }
}

} // verus!
