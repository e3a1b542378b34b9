//! Logical data types and their mapping to physical storage.

use vstd::prelude::*;

use crate::arrays::physical_type::PhysicalType;
use crate::error::RayexecError;

verus! {

broadcast use vstd::std_specs::vec::axiom_vec_index_decreases;

/// The tag of a logical data type, without its metadata.
#[derive(Debug, Clone, Copy, PartialEq, Eq, Hash, Structural)]
pub enum DataTypeId {
    Any,
    Null,
    Boolean,
    Int8,
    Int16,
    Int32,
    Int64,
    Int128,
    UInt8,
    UInt16,
    UInt32,
    UInt64,
    UInt128,
    Float16,
    Float32,
    Float64,
    Decimal64,
    Decimal128,
    Date32,
    Date64,
    Timestamp,
    Interval,
    Utf8,
    Binary,
    Struct,
    List,
}

/// The resolution of a timestamp.
#[derive(Debug, Clone, Copy, PartialEq, Eq, Hash, Structural)]
pub enum TimeUnit {
    Second,
    Millisecond,
    Microsecond,
    Nanosecond,
}

/// Precision and scale of a decimal type.
#[derive(Debug, Clone, Copy, PartialEq, Eq, Hash, Structural)]
pub struct DecimalTypeMeta {
    pub precision: u8,
    pub scale: i8,
}

/// The unit of a timestamp type.
#[derive(Debug, Clone, Copy, PartialEq, Eq, Hash, Structural)]
pub struct TimestampTypeMeta {
    pub unit: TimeUnit,
}

/// The element type of a list type.
#[derive(Debug, PartialEq, Eq, Hash)]
pub struct ListTypeMeta {
    pub datatype: Box<DataType>,
}

/// The field types of a struct type, in order.
#[derive(Debug, PartialEq, Eq, Hash)]
pub struct StructTypeMeta {
    pub fields: Vec<DataType>,
}

/// A user-visible SQL type.
#[derive(Debug, PartialEq, Eq, Hash)]
pub enum DataType {
    Null,
    Boolean,
    Int8,
    Int16,
    Int32,
    Int64,
    Int128,
    UInt8,
    UInt16,
    UInt32,
    UInt64,
    UInt128,
    Float16,
    Float32,
    Float64,
    Decimal64(DecimalTypeMeta),
    Decimal128(DecimalTypeMeta),
    Date32,
    Date64,
    Timestamp(TimestampTypeMeta),
    Interval,
    Utf8,
    Binary,
    Struct(StructTypeMeta),
    List(ListTypeMeta),
}

/// The mathematical value of a [`DataType`].
pub enum DataTypeView {
    Null,
    Boolean,
    Int8,
    Int16,
    Int32,
    Int64,
    Int128,
    UInt8,
    UInt16,
    UInt32,
    UInt64,
    UInt128,
    Float16,
    Float32,
    Float64,
    Decimal64(DecimalTypeMeta),
    Decimal128(DecimalTypeMeta),
    Date32,
    Date64,
    Timestamp(TimestampTypeMeta),
    Interval,
    Utf8,
    Binary,
    Struct(Seq<DataTypeView>),
    List(Box<DataTypeView>),
}

impl View for DataType {
    type V = DataTypeView;

    open spec fn view(&self) -> DataTypeView {
        self.model()
    }
}

impl DataType {
    /// The mathematical value of the type.
    pub open spec fn model(&self) -> DataTypeView
        decreases self,
    {
        match self {
            DataType::Null => DataTypeView::Null,
            DataType::Boolean => DataTypeView::Boolean,
            DataType::Int8 => DataTypeView::Int8,
            DataType::Int16 => DataTypeView::Int16,
            DataType::Int32 => DataTypeView::Int32,
            DataType::Int64 => DataTypeView::Int64,
            DataType::Int128 => DataTypeView::Int128,
            DataType::UInt8 => DataTypeView::UInt8,
            DataType::UInt16 => DataTypeView::UInt16,
            DataType::UInt32 => DataTypeView::UInt32,
            DataType::UInt64 => DataTypeView::UInt64,
            DataType::UInt128 => DataTypeView::UInt128,
            DataType::Float16 => DataTypeView::Float16,
            DataType::Float32 => DataTypeView::Float32,
            DataType::Float64 => DataTypeView::Float64,
            DataType::Decimal64(m) => DataTypeView::Decimal64(*m),
            DataType::Decimal128(m) => DataTypeView::Decimal128(*m),
            DataType::Date32 => DataTypeView::Date32,
            DataType::Date64 => DataTypeView::Date64,
            DataType::Timestamp(m) => DataTypeView::Timestamp(*m),
            DataType::Interval => DataTypeView::Interval,
            DataType::Utf8 => DataTypeView::Utf8,
            DataType::Binary => DataTypeView::Binary,
            DataType::Struct(m) => DataTypeView::Struct(
                Seq::new(
                    m.fields.len() as nat,
                    |i: int|
                        if 0 <= i < m.fields.len() {
                            m.fields[i].model()
                        } else {
                            DataTypeView::Null
                        },
                ),
            ),
            DataType::List(m) => DataTypeView::List(Box::new((*m.datatype).model())),
        }
    }
}

impl DataTypeView {
    /// The tag of the type.
    pub open spec fn id(self) -> DataTypeId {
        match self {
            DataTypeView::Null => DataTypeId::Null,
            DataTypeView::Boolean => DataTypeId::Boolean,
            DataTypeView::Int8 => DataTypeId::Int8,
            DataTypeView::Int16 => DataTypeId::Int16,
            DataTypeView::Int32 => DataTypeId::Int32,
            DataTypeView::Int64 => DataTypeId::Int64,
            DataTypeView::Int128 => DataTypeId::Int128,
            DataTypeView::UInt8 => DataTypeId::UInt8,
            DataTypeView::UInt16 => DataTypeId::UInt16,
            DataTypeView::UInt32 => DataTypeId::UInt32,
            DataTypeView::UInt64 => DataTypeId::UInt64,
            DataTypeView::UInt128 => DataTypeId::UInt128,
            DataTypeView::Float16 => DataTypeId::Float16,
            DataTypeView::Float32 => DataTypeId::Float32,
            DataTypeView::Float64 => DataTypeId::Float64,
            DataTypeView::Decimal64(_) => DataTypeId::Decimal64,
            DataTypeView::Decimal128(_) => DataTypeId::Decimal128,
            DataTypeView::Date32 => DataTypeId::Date32,
            DataTypeView::Date64 => DataTypeId::Date64,
            DataTypeView::Timestamp(_) => DataTypeId::Timestamp,
            DataTypeView::Interval => DataTypeId::Interval,
            DataTypeView::Utf8 => DataTypeId::Utf8,
            DataTypeView::Binary => DataTypeId::Binary,
            DataTypeView::Struct(_) => DataTypeId::Struct,
            DataTypeView::List(_) => DataTypeId::List,
        }
    }

    /// The one physical type that stores values of the type; struct types
    /// have none.
    pub open spec fn physical_type(self) -> Option<PhysicalType> {
        match self {
            DataTypeView::Null => Some(PhysicalType::UntypedNull),
            DataTypeView::Boolean => Some(PhysicalType::Boolean),
            DataTypeView::Int8 => Some(PhysicalType::Int8),
            DataTypeView::Int16 => Some(PhysicalType::Int16),
            DataTypeView::Int32 => Some(PhysicalType::Int32),
            DataTypeView::Int64 => Some(PhysicalType::Int64),
            DataTypeView::Int128 => Some(PhysicalType::Int128),
            DataTypeView::UInt8 => Some(PhysicalType::UInt8),
            DataTypeView::UInt16 => Some(PhysicalType::UInt16),
            DataTypeView::UInt32 => Some(PhysicalType::UInt32),
            DataTypeView::UInt64 => Some(PhysicalType::UInt64),
            DataTypeView::UInt128 => Some(PhysicalType::UInt128),
            DataTypeView::Float16 => Some(PhysicalType::Float16),
            DataTypeView::Float32 => Some(PhysicalType::Float32),
            DataTypeView::Float64 => Some(PhysicalType::Float64),
            DataTypeView::Decimal64(_) => Some(PhysicalType::Int64),
            DataTypeView::Decimal128(_) => Some(PhysicalType::Int128),
            DataTypeView::Date32 => Some(PhysicalType::Int32),
            DataTypeView::Date64 => Some(PhysicalType::Int64),
            DataTypeView::Timestamp(_) => Some(PhysicalType::Int64),
            DataTypeView::Interval => Some(PhysicalType::Interval),
            DataTypeView::Utf8 => Some(PhysicalType::Utf8),
            DataTypeView::Binary => Some(PhysicalType::Binary),
            DataTypeView::Struct(_) => None,
            DataTypeView::List(_) => Some(PhysicalType::List),
        }
    }
}

impl DataType {
    /// The tag of the type.
    pub fn datatype_id(&self) -> (id: DataTypeId)
        ensures
            id == self@.id(),
    {
        match self {
            DataType::Null => DataTypeId::Null,
            DataType::Boolean => DataTypeId::Boolean,
            DataType::Int8 => DataTypeId::Int8,
            DataType::Int16 => DataTypeId::Int16,
            DataType::Int32 => DataTypeId::Int32,
            DataType::Int64 => DataTypeId::Int64,
            DataType::Int128 => DataTypeId::Int128,
            DataType::UInt8 => DataTypeId::UInt8,
            DataType::UInt16 => DataTypeId::UInt16,
            DataType::UInt32 => DataTypeId::UInt32,
            DataType::UInt64 => DataTypeId::UInt64,
            DataType::UInt128 => DataTypeId::UInt128,
            DataType::Float16 => DataTypeId::Float16,
            DataType::Float32 => DataTypeId::Float32,
            DataType::Float64 => DataTypeId::Float64,
            DataType::Decimal64(_) => DataTypeId::Decimal64,
            DataType::Decimal128(_) => DataTypeId::Decimal128,
            DataType::Date32 => DataTypeId::Date32,
            DataType::Date64 => DataTypeId::Date64,
            DataType::Timestamp(_) => DataTypeId::Timestamp,
            DataType::Interval => DataTypeId::Interval,
            DataType::Utf8 => DataTypeId::Utf8,
            DataType::Binary => DataTypeId::Binary,
            DataType::Struct(_) => DataTypeId::Struct,
            DataType::List(_) => DataTypeId::List,
        }
    }

    /// The physical type that stores values of this type.
    ///
    /// Every type has exactly one, except struct types, which are not stored
    /// yet and give `NotImplemented`.
    pub fn physical_type(&self) -> (r: Result<PhysicalType, RayexecError>)
        ensures
            match r {
                Ok(p) => self@.physical_type() == Some(p),
                Err(e) => self@.physical_type().is_none() && e == RayexecError::NotImplemented,
            },
    {
        Ok(
            match self {
                DataType::Null => PhysicalType::UntypedNull,
                DataType::Boolean => PhysicalType::Boolean,
                DataType::Int8 => PhysicalType::Int8,
                DataType::Int16 => PhysicalType::Int16,
                DataType::Int32 => PhysicalType::Int32,
                DataType::Int64 => PhysicalType::Int64,
                DataType::Int128 => PhysicalType::Int128,
                DataType::UInt8 => PhysicalType::UInt8,
                DataType::UInt16 => PhysicalType::UInt16,
                DataType::UInt32 => PhysicalType::UInt32,
                DataType::UInt64 => PhysicalType::UInt64,
                DataType::UInt128 => PhysicalType::UInt128,
                DataType::Float16 => PhysicalType::Float16,
                DataType::Float32 => PhysicalType::Float32,
                DataType::Float64 => PhysicalType::Float64,
                DataType::Decimal64(_) => PhysicalType::Int64,
                DataType::Decimal128(_) => PhysicalType::Int128,
                DataType::Date32 => PhysicalType::Int32,
                DataType::Date64 => PhysicalType::Int64,
                DataType::Timestamp(_) => PhysicalType::Int64,
                DataType::Interval => PhysicalType::Interval,
                DataType::Utf8 => PhysicalType::Utf8,
                DataType::Binary => PhysicalType::Binary,
                DataType::Struct(_) => { return Err(RayexecError::NotImplemented); },
                DataType::List(_) => PhysicalType::List,
            },
        )
    }
}

impl Clone for DataType {
    /// A deep copy of the type.
    fn clone(&self) -> (r: DataType)
        ensures
            r@ == self@,
        decreases self,
    {
        match self {
            DataType::Null => DataType::Null,
            DataType::Boolean => DataType::Boolean,
            DataType::Int8 => DataType::Int8,
            DataType::Int16 => DataType::Int16,
            DataType::Int32 => DataType::Int32,
            DataType::Int64 => DataType::Int64,
            DataType::Int128 => DataType::Int128,
            DataType::UInt8 => DataType::UInt8,
            DataType::UInt16 => DataType::UInt16,
            DataType::UInt32 => DataType::UInt32,
            DataType::UInt64 => DataType::UInt64,
            DataType::UInt128 => DataType::UInt128,
            DataType::Float16 => DataType::Float16,
            DataType::Float32 => DataType::Float32,
            DataType::Float64 => DataType::Float64,
            DataType::Decimal64(m) => DataType::Decimal64(*m),
            DataType::Decimal128(m) => DataType::Decimal128(*m),
            DataType::Date32 => DataType::Date32,
            DataType::Date64 => DataType::Date64,
            DataType::Timestamp(m) => DataType::Timestamp(*m),
            DataType::Interval => DataType::Interval,
            DataType::Utf8 => DataType::Utf8,
            DataType::Binary => DataType::Binary,
            DataType::Struct(m) => {
                let mut fields: Vec<DataType> = Vec::new();
                let mut i: usize = 0;
                while i < m.fields.len()
                    invariant
                        self is Struct,
                        self->Struct_0 == *m,
                        i <= m.fields.len(),
                        fields.len() == i,
                        forall|j: int| 0 <= j < i ==> fields[j]@ == m.fields[j]@,
                    decreases m.fields.len() - i,
                {
                    fields.push(m.fields[i].clone());
                    i += 1;
                }
                let r = DataType::Struct(StructTypeMeta { fields });
                assert(r@->Struct_0 =~= self@->Struct_0);
                r
            },
            DataType::List(m) => DataType::List(
                ListTypeMeta { datatype: Box::new((&*m.datatype).clone()) },
            ),
        }
    }
}

} // verus!
