//! Owned single-row values.

use vstd::prelude::*;

use crate::arrays::datatype::{
    DataType,
    DataTypeView,
    DecimalTypeMeta,
    ListTypeMeta,
    StructTypeMeta,
    TimeUnit,
    TimestampTypeMeta,
};

verus! {

broadcast use vstd::std_specs::vec::axiom_vec_index_decreases;

/// Whether the 32-bit IEEE 754 pattern `bits` is a NaN.
pub open spec fn spec_is_nan_32(bits: u32) -> bool {
    bits & 0x7fff_ffffu32 > 0x7f80_0000u32
}

/// Whether the 64-bit IEEE 754 pattern `bits` is a NaN.
pub open spec fn spec_is_nan_64(bits: u64) -> bool {
    bits & 0x7fff_ffff_ffff_ffffu64 > 0x7ff0_0000_0000_0000u64
}

/// IEEE 754 equality of two 32-bit patterns: a NaN equals nothing, the two
/// zeros equal each other, and any other value equals only itself.
pub open spec fn spec_ieee_eq_32(a: u32, b: u32) -> bool {
    !spec_is_nan_32(a) && !spec_is_nan_32(b) && (a == b || (a | b) & 0x7fff_ffffu32 == 0)
}

/// IEEE 754 equality of two 64-bit patterns.
pub open spec fn spec_ieee_eq_64(a: u64, b: u64) -> bool {
    !spec_is_nan_64(a) && !spec_is_nan_64(b) && (a == b || (a | b) & 0x7fff_ffff_ffff_ffffu64
        == 0)
}

/// IEEE 754 equality of two 32-bit patterns.
pub fn ieee_eq_32(a: u32, b: u32) -> (r: bool)
    ensures
        r == spec_ieee_eq_32(a, b),
{
    let a_nan = a & 0x7fff_ffffu32 > 0x7f80_0000u32;
    let b_nan = b & 0x7fff_ffffu32 > 0x7f80_0000u32;
    !a_nan && !b_nan && (a == b || (a | b) & 0x7fff_ffffu32 == 0)
}

/// IEEE 754 equality of two 64-bit patterns.
pub fn ieee_eq_64(a: u64, b: u64) -> (r: bool)
    ensures
        r == spec_ieee_eq_64(a, b),
{
    let a_nan = a & 0x7fff_ffff_ffff_ffffu64 > 0x7ff0_0000_0000_0000u64;
    let b_nan = b & 0x7fff_ffff_ffff_ffffu64 > 0x7ff0_0000_0000_0000u64;
    !a_nan && !b_nan && (a == b || (a | b) & 0x7fff_ffff_ffff_ffffu64 == 0)
}

/// A span of time in months, days and nanoseconds.
#[derive(Debug, Clone, Copy, PartialEq, Eq, Hash, Default, Structural)]
pub struct Interval {
    pub months: i32,
    pub days: i32,
    pub nanos: i64,
}

/// A decimal of at most 18 digits, held as its unscaled integer.
#[derive(Debug, Clone, Copy, PartialEq, Eq, Hash, Structural)]
pub struct Decimal64Scalar {
    pub precision: u8,
    pub scale: i8,
    pub value: i64,
}

/// A decimal of at most 38 digits, held as its unscaled integer.
#[derive(Debug, Clone, Copy, PartialEq, Eq, Hash, Structural)]
pub struct Decimal128Scalar {
    pub precision: u8,
    pub scale: i8,
    pub value: i128,
}

/// A point in time, counted in `unit` since the epoch.
#[derive(Debug, Clone, Copy, PartialEq, Eq, Hash, Structural)]
pub struct TimestampScalar {
    pub unit: TimeUnit,
    pub value: i64,
}

/// A single value of any logical type.
///
/// Floating-point values are held as their IEEE 754 bit patterns, of 16, 32
/// and 64 bits.
#[derive(Debug, PartialEq, Eq, Hash)]
pub enum ScalarValue {
    Null,
    Boolean(bool),
    Float16(u16),
    Float32(u32),
    Float64(u64),
    Int8(i8),
    Int16(i16),
    Int32(i32),
    Int64(i64),
    Int128(i128),
    UInt8(u8),
    UInt16(u16),
    UInt32(u32),
    UInt64(u64),
    UInt128(u128),
    Decimal64(Decimal64Scalar),
    Decimal128(Decimal128Scalar),
    Date32(i32),
    Date64(i64),
    Timestamp(TimestampScalar),
    Interval(Interval),
    Utf8(String),
    Binary(Vec<u8>),
    Struct(Vec<ScalarValue>),
    List(Vec<ScalarValue>),
}

/// The mathematical value of a [`ScalarValue`].
pub enum ScalarValueView {
    Null,
    Boolean(bool),
    Float16(u16),
    Float32(u32),
    Float64(u64),
    Int8(i8),
    Int16(i16),
    Int32(i32),
    Int64(i64),
    Int128(i128),
    UInt8(u8),
    UInt16(u16),
    UInt32(u32),
    UInt64(u64),
    UInt128(u128),
    Decimal64(Decimal64Scalar),
    Decimal128(Decimal128Scalar),
    Date32(i32),
    Date64(i64),
    Timestamp(TimestampScalar),
    Interval(Interval),
    Utf8(Seq<char>),
    Binary(Seq<u8>),
    Struct(Seq<ScalarValueView>),
    List(Seq<ScalarValueView>),
}

/// The views of the values of `values`, in order.
pub open spec fn scalar_views(values: Seq<ScalarValue>) -> Seq<ScalarValueView> {
    Seq::new(values.len(), |i: int| values[i]@)
}

impl View for ScalarValue {
    type V = ScalarValueView;

    open spec fn view(&self) -> ScalarValueView {
        self.model()
    }
}

impl ScalarValue {
    /// The mathematical value.
    pub open spec fn model(&self) -> ScalarValueView
        decreases self,
    {
        match self {
            ScalarValue::Null => ScalarValueView::Null,
            ScalarValue::Boolean(v) => ScalarValueView::Boolean(*v),
            ScalarValue::Float16(v) => ScalarValueView::Float16(*v),
            ScalarValue::Float32(v) => ScalarValueView::Float32(*v),
            ScalarValue::Float64(v) => ScalarValueView::Float64(*v),
            ScalarValue::Int8(v) => ScalarValueView::Int8(*v),
            ScalarValue::Int16(v) => ScalarValueView::Int16(*v),
            ScalarValue::Int32(v) => ScalarValueView::Int32(*v),
            ScalarValue::Int64(v) => ScalarValueView::Int64(*v),
            ScalarValue::Int128(v) => ScalarValueView::Int128(*v),
            ScalarValue::UInt8(v) => ScalarValueView::UInt8(*v),
            ScalarValue::UInt16(v) => ScalarValueView::UInt16(*v),
            ScalarValue::UInt32(v) => ScalarValueView::UInt32(*v),
            ScalarValue::UInt64(v) => ScalarValueView::UInt64(*v),
            ScalarValue::UInt128(v) => ScalarValueView::UInt128(*v),
            ScalarValue::Decimal64(v) => ScalarValueView::Decimal64(*v),
            ScalarValue::Decimal128(v) => ScalarValueView::Decimal128(*v),
            ScalarValue::Date32(v) => ScalarValueView::Date32(*v),
            ScalarValue::Date64(v) => ScalarValueView::Date64(*v),
            ScalarValue::Timestamp(v) => ScalarValueView::Timestamp(*v),
            ScalarValue::Interval(v) => ScalarValueView::Interval(*v),
            ScalarValue::Utf8(v) => ScalarValueView::Utf8(v@),
            ScalarValue::Binary(v) => ScalarValueView::Binary(v@),
            ScalarValue::Struct(v) => ScalarValueView::Struct(
                Seq::new(
                    v.len() as nat,
                    |i: int|
                        if 0 <= i < v.len() {
                            v[i].model()
                        } else {
                            ScalarValueView::Null
                        },
                ),
            ),
            ScalarValue::List(v) => ScalarValueView::List(
                Seq::new(
                    v.len() as nat,
                    |i: int|
                        if 0 <= i < v.len() {
                            v[i].model()
                        } else {
                            ScalarValueView::Null
                        },
                ),
            ),
        }
    }

    /// Whether the value is the null value.
    pub fn is_null(&self) -> (b: bool)
        ensures
            b == (self@ is Null),
    {
        match self {
            ScalarValue::Null => true,
            _ => false,
        }
    }

    /// The list value whose elements are `values`.
    pub fn new_list(values: Vec<ScalarValue>) -> (r: ScalarValue)
        ensures
            r@ == ScalarValueView::List(scalar_views(values@)),
    {
        let r = ScalarValue::List(values);
        assert(r@->List_0 =~= scalar_views(values@));
        r
    }

    /// The logical type of the value. A list takes the type of its first
    /// element, an empty list the null type.
    pub fn datatype(&self) -> (r: DataType)
        ensures
            r@ == self@.datatype(),
        decreases self,
    {
        match self {
            ScalarValue::Null => DataType::Null,
            ScalarValue::Boolean(_) => DataType::Boolean,
            ScalarValue::Float16(_) => DataType::Float16,
            ScalarValue::Float32(_) => DataType::Float32,
            ScalarValue::Float64(_) => DataType::Float64,
            ScalarValue::Int8(_) => DataType::Int8,
            ScalarValue::Int16(_) => DataType::Int16,
            ScalarValue::Int32(_) => DataType::Int32,
            ScalarValue::Int64(_) => DataType::Int64,
            ScalarValue::Int128(_) => DataType::Int128,
            ScalarValue::UInt8(_) => DataType::UInt8,
            ScalarValue::UInt16(_) => DataType::UInt16,
            ScalarValue::UInt32(_) => DataType::UInt32,
            ScalarValue::UInt64(_) => DataType::UInt64,
            ScalarValue::UInt128(_) => DataType::UInt128,
            ScalarValue::Decimal64(v) => DataType::Decimal64(
                DecimalTypeMeta { precision: v.precision, scale: v.scale },
            ),
            ScalarValue::Decimal128(v) => DataType::Decimal128(
                DecimalTypeMeta { precision: v.precision, scale: v.scale },
            ),
            ScalarValue::Date32(_) => DataType::Date32,
            ScalarValue::Date64(_) => DataType::Date64,
            ScalarValue::Timestamp(v) => DataType::Timestamp(TimestampTypeMeta { unit: v.unit }),
            ScalarValue::Interval(_) => DataType::Interval,
            ScalarValue::Utf8(_) => DataType::Utf8,
            ScalarValue::Binary(_) => DataType::Binary,
            ScalarValue::Struct(v) => {
                let mut fields: Vec<DataType> = Vec::new();
                let mut i: usize = 0;
                while i < v.len()
                    invariant
                        self is Struct,
                        self->Struct_0 == *v,
                        i <= v.len(),
                        fields.len() == i,
                        forall|j: int| 0 <= j < i ==> fields[j]@ == v[j]@.datatype(),
                    decreases v.len() - i,
                {
                    fields.push(v[i].datatype());
                    i += 1;
                }
                let r = DataType::Struct(StructTypeMeta { fields });
                assert(r@->Struct_0 =~= self@.datatype()->Struct_0);
                r
            },
            ScalarValue::List(v) => {
                if v.len() == 0 {
                    let r = DataType::List(ListTypeMeta { datatype: Box::new(DataType::Null) });
                    assert(*r->List_0.datatype == DataType::Null);
                    assert(r@ == DataTypeView::List(Box::new(DataTypeView::Null)));
                    r
                } else {
                    let inner = v[0].datatype();
                    let r = DataType::List(ListTypeMeta { datatype: Box::new(inner) });
                    assert(r@ == DataTypeView::List(Box::new(inner@)));
                    assert(self@->List_0[0] == v[0]@);
                    r
                }
            },
        }
    }
}

impl ScalarValueView {
    /// The logical type of the value.
    pub open spec fn datatype(self) -> DataTypeView
        decreases self,
    {
        match self {
            ScalarValueView::Null => DataTypeView::Null,
            ScalarValueView::Boolean(_) => DataTypeView::Boolean,
            ScalarValueView::Float16(_) => DataTypeView::Float16,
            ScalarValueView::Float32(_) => DataTypeView::Float32,
            ScalarValueView::Float64(_) => DataTypeView::Float64,
            ScalarValueView::Int8(_) => DataTypeView::Int8,
            ScalarValueView::Int16(_) => DataTypeView::Int16,
            ScalarValueView::Int32(_) => DataTypeView::Int32,
            ScalarValueView::Int64(_) => DataTypeView::Int64,
            ScalarValueView::Int128(_) => DataTypeView::Int128,
            ScalarValueView::UInt8(_) => DataTypeView::UInt8,
            ScalarValueView::UInt16(_) => DataTypeView::UInt16,
            ScalarValueView::UInt32(_) => DataTypeView::UInt32,
            ScalarValueView::UInt64(_) => DataTypeView::UInt64,
            ScalarValueView::UInt128(_) => DataTypeView::UInt128,
            ScalarValueView::Decimal64(v) => DataTypeView::Decimal64(
                DecimalTypeMeta { precision: v.precision, scale: v.scale },
            ),
            ScalarValueView::Decimal128(v) => DataTypeView::Decimal128(
                DecimalTypeMeta { precision: v.precision, scale: v.scale },
            ),
            ScalarValueView::Date32(_) => DataTypeView::Date32,
            ScalarValueView::Date64(_) => DataTypeView::Date64,
            ScalarValueView::Timestamp(v) => DataTypeView::Timestamp(
                TimestampTypeMeta { unit: v.unit },
            ),
            ScalarValueView::Interval(_) => DataTypeView::Interval,
            ScalarValueView::Utf8(_) => DataTypeView::Utf8,
            ScalarValueView::Binary(_) => DataTypeView::Binary,
            ScalarValueView::Struct(v) => DataTypeView::Struct(
                Seq::new(
                    v.len(),
                    |i: int|
                        if 0 <= i < v.len() {
                            v[i].datatype()
                        } else {
                            DataTypeView::Null
                        },
                ),
            ),
            ScalarValueView::List(v) => if v.len() == 0 {
                DataTypeView::List(Box::new(DataTypeView::Null))
            } else {
                DataTypeView::List(Box::new(v[0].datatype()))
            },
        }
    }
}

impl Clone for ScalarValue {
    /// A deep copy of the value.
    fn clone(&self) -> (r: ScalarValue)
        ensures
            r@ == self@,
        decreases self,
    {
        match self {
            ScalarValue::Null => ScalarValue::Null,
            ScalarValue::Boolean(v) => ScalarValue::Boolean(*v),
            ScalarValue::Float16(v) => ScalarValue::Float16(*v),
            ScalarValue::Float32(v) => ScalarValue::Float32(*v),
            ScalarValue::Float64(v) => ScalarValue::Float64(*v),
            ScalarValue::Int8(v) => ScalarValue::Int8(*v),
            ScalarValue::Int16(v) => ScalarValue::Int16(*v),
            ScalarValue::Int32(v) => ScalarValue::Int32(*v),
            ScalarValue::Int64(v) => ScalarValue::Int64(*v),
            ScalarValue::Int128(v) => ScalarValue::Int128(*v),
            ScalarValue::UInt8(v) => ScalarValue::UInt8(*v),
            ScalarValue::UInt16(v) => ScalarValue::UInt16(*v),
            ScalarValue::UInt32(v) => ScalarValue::UInt32(*v),
            ScalarValue::UInt64(v) => ScalarValue::UInt64(*v),
            ScalarValue::UInt128(v) => ScalarValue::UInt128(*v),
            ScalarValue::Decimal64(v) => ScalarValue::Decimal64(*v),
            ScalarValue::Decimal128(v) => ScalarValue::Decimal128(*v),
            ScalarValue::Date32(v) => ScalarValue::Date32(*v),
            ScalarValue::Date64(v) => ScalarValue::Date64(*v),
            ScalarValue::Timestamp(v) => ScalarValue::Timestamp(*v),
            ScalarValue::Interval(v) => ScalarValue::Interval(*v),
            ScalarValue::Utf8(v) => ScalarValue::Utf8(v.clone()),
            ScalarValue::Binary(v) => {
                let r = ScalarValue::Binary(v.clone());
                assert(r@->Binary_0 =~= v@);
                r
            },
            ScalarValue::Struct(v) => {
                let mut out: Vec<ScalarValue> = Vec::new();
                let mut i: usize = 0;
                while i < v.len()
                    invariant
                        self is Struct,
                        self->Struct_0 == *v,
                        i <= v.len(),
                        out.len() == i,
                        forall|j: int| 0 <= j < i ==> out[j]@ == v[j]@,
                    decreases v.len() - i,
                {
                    out.push(v[i].clone());
                    i += 1;
                }
                let r = ScalarValue::Struct(out);
                assert(r@->Struct_0 =~= self@->Struct_0);
                r
            },
            ScalarValue::List(v) => {
                let mut out: Vec<ScalarValue> = Vec::new();
                let mut i: usize = 0;
                while i < v.len()
                    invariant
                        self is List,
                        self->List_0 == *v,
                        i <= v.len(),
                        out.len() == i,
                        forall|j: int| 0 <= j < i ==> out[j]@ == v[j]@,
                    decreases v.len() - i,
                {
                    out.push(v[i].clone());
                    i += 1;
                }
                let r = ScalarValue::List(out);
                assert(r@->List_0 =~= self@->List_0);
                r
            },
        }
    }
}

} // verus!
