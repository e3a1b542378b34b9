//! The array: a typed column with validity and an optional dictionary
//! selection.

use std::sync::Arc;
use vstd::prelude::*;
use vstd::utf8::{decode_utf8, encode_utf8, valid_utf8};

use crate::arrays::bitmap::Bitmap;
use crate::arrays::datatype::{DataType, DataTypeView, DecimalTypeMeta, TimestampTypeMeta};
use crate::arrays::physical_type::{
    PhysicalBool,
    PhysicalF16,
    PhysicalF32,
    PhysicalF64,
    PhysicalI128,
    PhysicalI16,
    PhysicalI32,
    PhysicalI64,
    PhysicalI8,
    PhysicalInterval,
    PhysicalStorage,
    PhysicalType,
    PhysicalU128,
    PhysicalU16,
    PhysicalU32,
    PhysicalU64,
    PhysicalU8,
};
use crate::arrays::scalar::{
    ieee_eq_32,
    ieee_eq_64,
    spec_ieee_eq_32,
    spec_ieee_eq_64,
    Decimal128Scalar,
    Decimal64Scalar,
    Interval,
    ScalarValue,
    ScalarValueView,
    TimestampScalar,
};
use crate::arrays::selection::{
    first_out_of_bounds,
    in_bounds,
    lemma_first_out_of_bounds,
    SelectionVector,
};
use crate::arrays::storage::{
    bytes_eq,
    BooleanStorage,
    ContiguousVarlenStorage,
    GermanVarlenStorage,
    PrimitiveStorage,
    UntypedNullStorage,
    heap_bytes,
    lemma_heap_bytes_grow,
    HEAP_LIMIT,
};
use crate::arrays::text::decode_text;
use crate::arrays::validity::Validity;
use crate::error::RayexecError;

verus! {

/// Where the elements of one list row lie in the child array.
#[derive(Debug, Clone, Copy, PartialEq, Eq, Default, Structural)]
pub struct ListItemMetadata {
    pub offset: i32,
    pub len: i32,
}

/// Storage of lists: one `(offset, len)` pair per row, and the flattened
/// child array that the pairs point into.
#[derive(Debug, PartialEq)]
pub struct ListStorage {
    pub(crate) metadata: PrimitiveStorage<ListItemMetadata>,
    pub(crate) array: Array,
}

/// Storage of variable-length values, in one of three layouts.
#[derive(Debug, PartialEq)]
pub enum BinaryData {
    Binary(Arc<ContiguousVarlenStorage<i32>>),
    LargeBinary(Arc<ContiguousVarlenStorage<i64>>),
    German(Arc<GermanVarlenStorage>),
}

/// The physical data of an array. Buffers are reference-counted, so a slice
/// or a selection of an array shares them with the array it came from.
#[derive(Debug, PartialEq)]
pub enum ArrayData2 {
    UntypedNull(UntypedNullStorage),
    Boolean(Arc<BooleanStorage>),
    Float16(Arc<PrimitiveStorage<u16>>),
    Float32(Arc<PrimitiveStorage<u32>>),
    Float64(Arc<PrimitiveStorage<u64>>),
    Int8(Arc<PrimitiveStorage<i8>>),
    Int16(Arc<PrimitiveStorage<i16>>),
    Int32(Arc<PrimitiveStorage<i32>>),
    Int64(Arc<PrimitiveStorage<i64>>),
    Int128(Arc<PrimitiveStorage<i128>>),
    UInt8(Arc<PrimitiveStorage<u8>>),
    UInt16(Arc<PrimitiveStorage<u16>>),
    UInt32(Arc<PrimitiveStorage<u32>>),
    UInt64(Arc<PrimitiveStorage<u64>>),
    UInt128(Arc<PrimitiveStorage<u128>>),
    Interval(Arc<PrimitiveStorage<Interval>>),
    Binary(BinaryData),
    List(Arc<ListStorage>),
}

/// The secondary buffer of a dictionary-encoded array: the validity of the
/// source rows. The row indices into the source are the primary buffer.
#[derive(Debug, PartialEq)]
pub struct DictionaryBuffer {
    pub(crate) indices: SelectionVector,
    pub(crate) validity: Validity,
}

/// A typed column of values.
///
/// Without a dictionary, logical row `i` is physical row `i` of the data.
/// With one, the primary buffer is a sequence of row indices into the data,
/// which makes the array a selection of its source: logical row `i` is
/// physical row `indices[i]`.
#[derive(Debug, PartialEq)]
pub struct Array {
    pub(crate) datatype: DataType,
    pub(crate) validity: Validity,
    pub(crate) dictionary: Option<DictionaryBuffer>,
    pub(crate) data: ArrayData2,
}

impl BinaryData {
    /// The values, one byte string per row.
    pub open spec fn spec_values(&self) -> Seq<Seq<u8>> {
        match self {
            BinaryData::Binary(s) => s@,
            BinaryData::LargeBinary(s) => s@,
            BinaryData::German(s) => s@,
        }
    }

    /// The number of value bytes held, without offsets and descriptors.
    pub open spec fn spec_data_size_bytes(&self) -> nat {
        match self {
            BinaryData::Binary(s) => s.spec_data_len(),
            BinaryData::LargeBinary(s) => s.spec_data_len(),
            BinaryData::German(s) => s.spec_heap_len(),
        }
    }

    /// The number of rows.
    pub fn len(&self) -> (n: usize)
        ensures
            n == self.spec_values().len(),
    {
        match self {
            BinaryData::Binary(s) => s.len(),
            BinaryData::LargeBinary(s) => s.len(),
            BinaryData::German(s) => s.len(),
        }
    }

    /// Get the binary data size for the array.
    ///
    /// This will not include metadata size in the calculation.
    pub fn binary_data_size_bytes(&self) -> (n: usize)
        ensures
            n == self.spec_data_size_bytes(),
    {
        match self {
            BinaryData::Binary(s) => s.data_size_bytes(),
            BinaryData::LargeBinary(s) => s.data_size_bytes(),
            BinaryData::German(s) => s.data_size_bytes(),
        }
    }

    /// The value of row `idx`, or `None` when there is no such row.
    pub fn get(&self, idx: usize) -> (r: Option<&[u8]>)
        ensures
            match r {
                Some(v) => idx < self.spec_values().len() && v@ == self.spec_values()[idx as int],
                None => idx >= self.spec_values().len(),
            },
    {
        match self {
            BinaryData::Binary(s) => s.get(idx),
            BinaryData::LargeBinary(s) => s.get(idx),
            BinaryData::German(s) => s.get(idx),
        }
    }
}

impl ListStorage {
    /// The representation invariant: every row's elements lie within the
    /// child array, which is itself well formed and not dictionary-encoded.
    #[verifier::type_invariant]
    pub closed spec fn wf(&self) -> bool
        decreases self,
    {
        &&& self.array.wf()
        &&& self.array.dictionary.is_none()
        &&& forall|i: int|
            0 <= i < self.metadata@.len() ==> {
                let m = #[trigger] self.metadata@[i];
                m.offset >= 0 && m.len >= 0 && m.offset + m.len <= self.array.data.spec_len()
            }
    }

    /// The `(offset, len)` pair of every row.
    pub closed spec fn spec_metadata(&self) -> Seq<ListItemMetadata> {
        self.metadata@
    }

    /// The flattened child array.
    pub closed spec fn spec_child(&self) -> Array {
        self.array
    }

    /// The number of rows.
    pub fn len(&self) -> (n: usize)
        ensures
            n == self.spec_metadata().len(),
    {
        self.metadata.len()
    }

    /// Where the elements of row `idx` lie in the child array.
    pub fn metadata_at(&self, idx: usize) -> (m: ListItemMetadata)
        requires
            idx < self.spec_metadata().len(),
        ensures
            m == self.spec_metadata()[idx as int],
            m.offset >= 0,
            m.len >= 0,
            m.offset + m.len <= self.spec_child().spec_data().spec_len(),
    {
        proof {
            use_type_invariant(self);
        }
        self.metadata.as_slice()[idx]
    }

    /// The flattened child array. It is not dictionary-encoded, so its
    /// logical rows are its physical rows.
    pub fn child(&self) -> (r: &Array)
        ensures
            *r == self.spec_child(),
            r.wf(),
            !r.spec_is_dictionary(),
    {
        proof {
            use_type_invariant(self);
        }
        &self.array
    }

    /// The list storage of the rows `metadata` over the child array
    /// `array`. Fails with `NotImplemented` when the child is
    /// dictionary-encoded, and with `OutOfBounds` at the first row whose
    /// elements do not lie within the child.
    #[verifier::loop_isolation(false)]
    pub fn try_new(metadata: Vec<ListItemMetadata>, array: Array) -> (r: Result<
        ListStorage,
        RayexecError,
    >)
        ensures
            match r {
                Ok(s) => {
                    &&& s.wf()
                    &&& s.spec_metadata() == metadata@
                    &&& s.spec_child() == array
                    &&& !array.spec_is_dictionary()
                    &&& forall|i: int| 0 <= i < metadata@.len() ==> list_row_fits(metadata@[i], array)
                },
                Err(e) => {
                    ||| array.spec_is_dictionary() && e == RayexecError::NotImplemented
                    ||| {
                        &&& !array.spec_is_dictionary()
                        &&& exists|i: int|
                            0 <= i < metadata@.len() && !list_row_fits(#[trigger] metadata@[i], array)
                                && (forall|j: int| 0 <= j < i ==> list_row_fits(metadata@[j], array))
                                && e == (RayexecError::OutOfBounds {
                                index: i as usize,
                                len: array.spec_data().spec_len() as usize,
                            })
                    }
                },
            },
    {
        proof {
            use_type_invariant(&array);
        }
        if array.is_dictionary() {
            return Err(RayexecError::NotImplemented);
        }
        let child_len = array.array_data().len();
        let mut i: usize = 0;
        while i < metadata.len()
            invariant
                i <= metadata.len(),
                child_len == array.spec_data().spec_len(),
                forall|j: int| 0 <= j < i ==> list_row_fits(#[trigger] metadata@[j], array),
            decreases metadata.len() - i,
        {
            let m = metadata[i];
            if m.offset < 0 || m.len < 0 || (m.offset as u64 + m.len as u64) > child_len as u64 {
                assert(!list_row_fits(metadata@[i as int], array));
                return Err(RayexecError::OutOfBounds { index: i, len: child_len });
            }
            i += 1;
        }
        Ok(ListStorage { metadata: PrimitiveStorage::from_vec(metadata), array })
    }
}

/// Whether the elements that `m` delimits lie within the physical rows of
/// `child`.
pub open spec fn list_row_fits(m: ListItemMetadata, child: Array) -> bool {
    m.offset >= 0 && m.len >= 0 && m.offset + m.len <= child.spec_data().spec_len()
}

impl ArrayData2 {
    /// Whether the buffers are well formed: list storage keeps every row
    /// within its child array.
    pub open spec fn wf(&self) -> bool
        decreases self,
    {
        match self {
            ArrayData2::List(s) => s.wf(),
            _ => true,
        }
    }

    /// The number of physical rows.
    pub open spec fn spec_len(&self) -> nat {
        match self {
            ArrayData2::UntypedNull(s) => s.0 as nat,
            ArrayData2::Boolean(s) => s@.len(),
            ArrayData2::Float16(s) => s@.len(),
            ArrayData2::Float32(s) => s@.len(),
            ArrayData2::Float64(s) => s@.len(),
            ArrayData2::Int8(s) => s@.len(),
            ArrayData2::Int16(s) => s@.len(),
            ArrayData2::Int32(s) => s@.len(),
            ArrayData2::Int64(s) => s@.len(),
            ArrayData2::Int128(s) => s@.len(),
            ArrayData2::UInt8(s) => s@.len(),
            ArrayData2::UInt16(s) => s@.len(),
            ArrayData2::UInt32(s) => s@.len(),
            ArrayData2::UInt64(s) => s@.len(),
            ArrayData2::UInt128(s) => s@.len(),
            ArrayData2::Interval(s) => s@.len(),
            ArrayData2::Binary(b) => b.spec_values().len(),
            ArrayData2::List(s) => s.spec_metadata().len(),
        }
    }

    /// The physical type of the storage.
    pub open spec fn spec_physical_type(&self) -> PhysicalType {
        match self {
            ArrayData2::UntypedNull(_) => PhysicalType::UntypedNull,
            ArrayData2::Boolean(_) => PhysicalType::Boolean,
            ArrayData2::Float16(_) => PhysicalType::Float16,
            ArrayData2::Float32(_) => PhysicalType::Float32,
            ArrayData2::Float64(_) => PhysicalType::Float64,
            ArrayData2::Int8(_) => PhysicalType::Int8,
            ArrayData2::Int16(_) => PhysicalType::Int16,
            ArrayData2::Int32(_) => PhysicalType::Int32,
            ArrayData2::Int64(_) => PhysicalType::Int64,
            ArrayData2::Int128(_) => PhysicalType::Int128,
            ArrayData2::UInt8(_) => PhysicalType::UInt8,
            ArrayData2::UInt16(_) => PhysicalType::UInt16,
            ArrayData2::UInt32(_) => PhysicalType::UInt32,
            ArrayData2::UInt64(_) => PhysicalType::UInt64,
            ArrayData2::UInt128(_) => PhysicalType::UInt128,
            ArrayData2::Interval(_) => PhysicalType::Interval,
            ArrayData2::Binary(_) => PhysicalType::Binary,
            ArrayData2::List(_) => PhysicalType::List,
        }
    }

    /// The physical type of the storage. Text and bytes share the `Binary`
    /// storage; which one an array holds is decided by its data type.
    pub fn physical_type(&self) -> (p: PhysicalType)
        ensures
            p == self.spec_physical_type(),
    {
        match self {
            ArrayData2::UntypedNull(_) => PhysicalType::UntypedNull,
            ArrayData2::Boolean(_) => PhysicalType::Boolean,
            ArrayData2::Float16(_) => PhysicalType::Float16,
            ArrayData2::Float32(_) => PhysicalType::Float32,
            ArrayData2::Float64(_) => PhysicalType::Float64,
            ArrayData2::Int8(_) => PhysicalType::Int8,
            ArrayData2::Int16(_) => PhysicalType::Int16,
            ArrayData2::Int32(_) => PhysicalType::Int32,
            ArrayData2::Int64(_) => PhysicalType::Int64,
            ArrayData2::Int128(_) => PhysicalType::Int128,
            ArrayData2::UInt8(_) => PhysicalType::UInt8,
            ArrayData2::UInt16(_) => PhysicalType::UInt16,
            ArrayData2::UInt32(_) => PhysicalType::UInt32,
            ArrayData2::UInt64(_) => PhysicalType::UInt64,
            ArrayData2::UInt128(_) => PhysicalType::UInt128,
            ArrayData2::Interval(_) => PhysicalType::Interval,
            ArrayData2::Binary(_) => PhysicalType::Binary,
            ArrayData2::List(_) => PhysicalType::List,
        }
    }

    /// Buffers that exist are well formed.
    fn check_wf(&self)
        ensures
            self.wf(),
    {
        match self {
            ArrayData2::List(s) => {
                let list: &ListStorage = &**s;
                proof {
                    use_type_invariant(list);
                }
            },
            _ => {},
        }
    }

    /// The number of physical rows.
    pub fn len(&self) -> (n: usize)
        ensures
            n == self.spec_len(),
    {
        match self {
            ArrayData2::UntypedNull(s) => s.len(),
            ArrayData2::Boolean(s) => s.len(),
            ArrayData2::Float16(s) => s.len(),
            ArrayData2::Float32(s) => s.len(),
            ArrayData2::Float64(s) => s.len(),
            ArrayData2::Int8(s) => s.len(),
            ArrayData2::Int16(s) => s.len(),
            ArrayData2::Int32(s) => s.len(),
            ArrayData2::Int64(s) => s.len(),
            ArrayData2::Int128(s) => s.len(),
            ArrayData2::UInt8(s) => s.len(),
            ArrayData2::UInt16(s) => s.len(),
            ArrayData2::UInt32(s) => s.len(),
            ArrayData2::UInt64(s) => s.len(),
            ArrayData2::UInt128(s) => s.len(),
            ArrayData2::Interval(s) => s.len(),
            ArrayData2::Binary(bin) => bin.len(),
            ArrayData2::List(s) => s.len(),
        }
    }

    /// Whether there are no physical rows.
    pub fn is_empty(&self) -> (b: bool)
        ensures
            b == (self.spec_len() == 0),
    {
        self.len() == 0
    }
}

impl Array {
    /// The representation invariant.
    ///
    /// The validity mask has one bit per row of the primary buffer. In a
    /// dictionary-encoded array the primary buffer is the index sequence,
    /// every index is a row of the source, and the source has a validity
    /// mask of its own length.
    #[verifier::type_invariant]
    pub closed spec fn wf(&self) -> bool
        decreases self,
    {
        &&& self.validity.wf()
        &&& self.data.wf()
        &&& match self.dictionary {
            None => self.validity@.len() == self.data.spec_len(),
            Some(d) => {
                &&& d.validity.wf()
                &&& self.validity@.len() == d.indices@.len()
                &&& d.validity@.len() == self.data.spec_len()
                &&& in_bounds(d.indices@, self.data.spec_len())
            },
        }
    }

    /// The logical data type.
    pub closed spec fn spec_datatype(&self) -> DataType {
        self.datatype
    }

    /// The physical data: the values themselves, or the source of the
    /// dictionary.
    pub closed spec fn spec_data(&self) -> ArrayData2 {
        self.data
    }

    /// Whether the array is dictionary-encoded.
    pub closed spec fn spec_is_dictionary(&self) -> bool {
        self.dictionary.is_some()
    }

    /// The row indices of a dictionary-encoded array.
    pub closed spec fn spec_selection(&self) -> Seq<usize>
        recommends
            self.spec_is_dictionary(),
    {
        self.dictionary->0.indices@
    }

    /// The validity mask of the primary buffer.
    pub closed spec fn spec_validity(&self) -> Seq<bool> {
        self.validity@
    }

    /// The validity mask of the source rows of a dictionary-encoded array.
    pub closed spec fn spec_source_validity(&self) -> Seq<bool>
        recommends
            self.spec_is_dictionary(),
    {
        self.dictionary->0.validity@
    }

    /// The number of rows of the primary buffer.
    pub open spec fn spec_capacity(&self) -> nat {
        if self.spec_is_dictionary() {
            self.spec_selection().len()
        } else {
            self.spec_data().spec_len()
        }
    }

    /// The number of logical rows.
    pub open spec fn spec_logical_len(&self) -> nat {
        self.spec_capacity()
    }

    /// The physical row that logical row `i` reads.
    pub open spec fn spec_physical_index(&self, i: int) -> int {
        if self.spec_is_dictionary() {
            self.spec_selection()[i] as int
        } else {
            i
        }
    }

    /// Whether logical row `i` holds a value.
    pub open spec fn spec_is_valid(&self, i: int) -> bool {
        &&& self.spec_validity()[i]
        &&& self.spec_is_dictionary() ==> self.spec_source_validity()[self.spec_physical_index(i)]
    }

    /// The number of rows of the primary buffer.
    pub fn capacity(&self) -> (n: usize)
        ensures
            n == self.spec_capacity(),
            n == self.spec_validity().len(),
    {
        proof {
            use_type_invariant(self);
        }
        self.validity.len()
    }

    /// The number of logical rows.
    pub fn logical_len(&self) -> (n: usize)
        ensures
            n == self.spec_logical_len(),
    {
        self.capacity()
    }

    /// The logical data type.
    pub fn datatype(&self) -> (r: &DataType)
        ensures
            *r == self.spec_datatype(),
    {
        &self.datatype
    }

    /// Whether the array is dictionary-encoded.
    pub fn is_dictionary(&self) -> (b: bool)
        ensures
            b == self.spec_is_dictionary(),
    {
        self.dictionary.is_some()
    }

    /// Whether the array selects rows of a source.
    pub fn has_selection(&self) -> (b: bool)
        ensures
            b == self.spec_is_dictionary(),
    {
        self.dictionary.is_some()
    }

    /// The row indices into the source, when the array is dictionary-encoded.
    pub fn selection_vector(&self) -> (r: Option<&SelectionVector>)
        ensures
            match r {
                Some(s) => self.spec_is_dictionary() && s@ == self.spec_selection(),
                None => !self.spec_is_dictionary(),
            },
    {
        match &self.dictionary {
            Some(d) => Some(&d.indices),
            None => None,
        }
    }

    /// The validity mask of the primary buffer.
    pub fn validity(&self) -> (r: &Validity)
        ensures
            r@ == self.spec_validity(),
            r@.len() == self.spec_capacity(),
    {
        proof {
            use_type_invariant(self);
        }
        &self.validity
    }

    /// Returns the array data.
    pub fn array_data(&self) -> (r: &ArrayData2)
        ensures
            *r == self.spec_data(),
    {
        &self.data
    }

    /// The array data, giving up the rest of the array.
    pub fn into_array_data(self) -> (r: ArrayData2)
        ensures
            r == self.spec_data(),
    {
        self.data
    }

    /// Gets the physical type of the array: `Dictionary` when the primary
    /// buffer is an index sequence, else the type of the storage, with
    /// `Utf8` for variable-length storage under the text data type.
    pub fn physical_type(&self) -> (p: PhysicalType)
        ensures
            p == self.spec_physical_type(),
    {
        if self.dictionary.is_some() {
            return PhysicalType::Dictionary;
        }
        match self.data.physical_type() {
            PhysicalType::Binary => match self.datatype {
                DataType::Utf8 => PhysicalType::Utf8,
                _ => PhysicalType::Binary,
            },
            other => other,
        }
    }

    /// The physical type of the array.
    pub open spec fn spec_physical_type(&self) -> PhysicalType {
        if self.spec_is_dictionary() {
            PhysicalType::Dictionary
        } else if self.spec_data().spec_physical_type() == PhysicalType::Binary
            && self.spec_datatype()@ == DataTypeView::Utf8 {
            PhysicalType::Utf8
        } else {
            self.spec_data().spec_physical_type()
        }
    }

    /// The physical row that logical row `idx` reads.
    pub fn physical_index(&self, idx: usize) -> (r: usize)
        requires
            idx < self.spec_logical_len(),
        ensures
            r == self.spec_physical_index(idx as int),
            r < self.spec_data().spec_len(),
    {
        proof {
            use_type_invariant(self);
        }
        match &self.dictionary {
            Some(d) => {
                let row = d.indices.get(idx);
                assert(d.indices@[idx as int] < self.data.spec_len());
                row
            },
            None => idx,
        }
    }

    /// Whether logical row `idx` holds a value, or `None` when there is no
    /// such row.
    pub fn is_valid(&self, idx: usize) -> (r: Option<bool>)
        ensures
            r == if idx < self.spec_logical_len() {
                Some(self.spec_is_valid(idx as int))
            } else {
                None
            },
    {
        proof {
            use_type_invariant(self);
        }
        if idx >= self.logical_len() {
            return None;
        }
        if !self.validity.is_valid(idx) {
            return Some(false);
        }
        match &self.dictionary {
            None => Some(true),
            Some(d) => {
                let row = d.indices.get(idx);
                assert(d.indices@[idx as int] < self.data.spec_len());
                Some(d.validity.is_valid(row))
            },
        }
    }
}

/// Whether storage `data` can stand under a data type whose physical type is
/// `expected`. Text is stored in the `Binary` storage.
pub open spec fn storage_holds(data: ArrayData2, expected: PhysicalType) -> bool {
    data.spec_physical_type() == expected || (expected == PhysicalType::Utf8
        && data.spec_physical_type() == PhysicalType::Binary)
}

/// The fixed table from data type and storage to the value of a physical
/// row, for every storage but lists.
pub open spec fn spec_flat_scalar(dt: DataTypeView, data: ArrayData2, idx: int) -> Result<
    ScalarValueView,
    RayexecError,
> {
    match (dt, data) {
        (DataTypeView::Null, ArrayData2::UntypedNull(_)) => Ok(ScalarValueView::Null),
        (DataTypeView::Boolean, ArrayData2::Boolean(s)) => Ok(ScalarValueView::Boolean(s@[idx])),
        (DataTypeView::Float16, ArrayData2::Float16(s)) => Ok(ScalarValueView::Float16(s@[idx])),
        (DataTypeView::Float32, ArrayData2::Float32(s)) => Ok(ScalarValueView::Float32(s@[idx])),
        (DataTypeView::Float64, ArrayData2::Float64(s)) => Ok(ScalarValueView::Float64(s@[idx])),
        (DataTypeView::Int8, ArrayData2::Int8(s)) => Ok(ScalarValueView::Int8(s@[idx])),
        (DataTypeView::Int16, ArrayData2::Int16(s)) => Ok(ScalarValueView::Int16(s@[idx])),
        (DataTypeView::Int32, ArrayData2::Int32(s)) => Ok(ScalarValueView::Int32(s@[idx])),
        (DataTypeView::Int64, ArrayData2::Int64(s)) => Ok(ScalarValueView::Int64(s@[idx])),
        (DataTypeView::Int128, ArrayData2::Int128(s)) => Ok(ScalarValueView::Int128(s@[idx])),
        (DataTypeView::UInt8, ArrayData2::UInt8(s)) => Ok(ScalarValueView::UInt8(s@[idx])),
        (DataTypeView::UInt16, ArrayData2::UInt16(s)) => Ok(ScalarValueView::UInt16(s@[idx])),
        (DataTypeView::UInt32, ArrayData2::UInt32(s)) => Ok(ScalarValueView::UInt32(s@[idx])),
        (DataTypeView::UInt64, ArrayData2::UInt64(s)) => Ok(ScalarValueView::UInt64(s@[idx])),
        (DataTypeView::UInt128, ArrayData2::UInt128(s)) => Ok(ScalarValueView::UInt128(s@[idx])),
        (DataTypeView::Decimal64(m), ArrayData2::Int64(s)) => Ok(
            ScalarValueView::Decimal64(
                Decimal64Scalar { precision: m.precision, scale: m.scale, value: s@[idx] },
            ),
        ),
        (DataTypeView::Decimal128(m), ArrayData2::Int128(s)) => Ok(
            ScalarValueView::Decimal128(
                Decimal128Scalar { precision: m.precision, scale: m.scale, value: s@[idx] },
            ),
        ),
        (DataTypeView::Date32, ArrayData2::Int32(s)) => Ok(ScalarValueView::Date32(s@[idx])),
        (DataTypeView::Date64, ArrayData2::Int64(s)) => Ok(ScalarValueView::Date64(s@[idx])),
        (DataTypeView::Timestamp(m), ArrayData2::Int64(s)) => Ok(
            ScalarValueView::Timestamp(TimestampScalar { unit: m.unit, value: s@[idx] }),
        ),
        (DataTypeView::Interval, ArrayData2::Interval(s)) => Ok(
            ScalarValueView::Interval(s@[idx]),
        ),
        (DataTypeView::Utf8, ArrayData2::Binary(b)) => if valid_utf8(b.spec_values()[idx]) {
            Ok(ScalarValueView::Utf8(decode_utf8(b.spec_values()[idx])))
        } else {
            Err(RayexecError::InvalidUtf8)
        },
        (DataTypeView::Binary, ArrayData2::Binary(b)) => Ok(
            ScalarValueView::Binary(b.spec_values()[idx]),
        ),
        _ => Err(RayexecError::InternalInvariantViolated),
    }
}

/// The values of the physical rows `start .. start + count` of `child`, or
/// the error of the first of them that cannot be read.
pub open spec fn spec_list_values(child: Array, start: int, count: nat) -> Result<
    Seq<ScalarValueView>,
    RayexecError,
>
    decreases child, count + 1,
{
    if count == 0 {
        Ok(Seq::empty())
    } else {
        match spec_list_values(child, start, (count - 1) as nat) {
            Err(e) => Err(e),
            Ok(values) => match child.spec_physical_scalar(start + count - 1) {
                Err(e) => Err(e),
                Ok(v) => Ok(values.push(v)),
            },
        }
    }
}

impl Array {
    /// The value in physical row `idx`, whatever validity and selection say.
    ///
    /// A struct type is not stored yet (`NotImplemented`); storage that does
    /// not fit the data type is a `PhysicalTypeMismatch`; a row beyond the
    /// storage is `OutOfBounds`; text that is not UTF-8 is `InvalidUtf8`.
    pub open spec fn spec_physical_scalar(&self, idx: int) -> Result<ScalarValueView, RayexecError>
        decreases self, 0nat,
    {
        let data = self.spec_data();
        match self.spec_datatype()@.physical_type() {
            None => Err(RayexecError::NotImplemented),
            Some(expected) => if !storage_holds(data, expected) {
                Err(
                    RayexecError::PhysicalTypeMismatch {
                        expected,
                        got: data.spec_physical_type(),
                    },
                )
            } else if !(0 <= idx < data.spec_len()) {
                Err(RayexecError::OutOfBounds { index: idx as usize, len: data.spec_len() as usize })
            } else {
                match data {
                    ArrayData2::List(s) => {
                        let m = s.spec_metadata()[idx];
                        match spec_list_values(s.spec_child(), m.offset as int, m.len as nat) {
                            Ok(values) => Ok(ScalarValueView::List(values)),
                            Err(e) => Err(e),
                        }
                    },
                    _ => spec_flat_scalar(self.spec_datatype()@, data, idx),
                }
            },
        }
    }

    /// The value of logical row `i`: `OutOfBounds` beyond the logical
    /// length, the null value where the row is not valid, else the value of
    /// the physical row that the row reads.
    pub open spec fn spec_logical_value(&self, i: int) -> Result<ScalarValueView, RayexecError> {
        if !(0 <= i < self.spec_logical_len()) {
            Err(RayexecError::OutOfBounds { index: i as usize, len: self.spec_logical_len() as usize })
        } else if !self.spec_is_valid(i) {
            Ok(ScalarValueView::Null)
        } else {
            self.spec_physical_scalar(self.spec_physical_index(i))
        }
    }

    /// The values of all logical rows.
    pub open spec fn spec_logical_values(&self) -> Seq<Result<ScalarValueView, RayexecError>> {
        Seq::new(self.spec_logical_len(), |i: int| self.spec_logical_value(i))
    }

    /// Get the value at a logical index.
    ///
    /// Takes into account the validity and selection vector.
    pub fn logical_value(&self, idx: usize) -> (r: Result<ScalarValue, RayexecError>)
        ensures
            match r {
                Ok(v) => self.spec_logical_value(idx as int) == Ok::<ScalarValueView, RayexecError>(
                    v@,
                ),
                Err(e) => self.spec_logical_value(idx as int) == Err::<
                    ScalarValueView,
                    RayexecError,
                >(e),
            },
    {
        proof {
            use_type_invariant(self);
        }
        match self.is_valid(idx) {
            None => Err(RayexecError::OutOfBounds { index: idx, len: self.logical_len() }),
            Some(false) => Ok(ScalarValue::Null),
            Some(true) => {
                let row = match &self.dictionary {
                    Some(d) => d.indices.get(idx),
                    None => idx,
                };
                self.physical_scalar(row)
            },
        }
    }

    /// Gets the scalar value at the physical index.
    ///
    /// Ignores validity and selection.
    #[verifier::loop_isolation(false)]
    pub fn physical_scalar(&self, idx: usize) -> (r: Result<ScalarValue, RayexecError>)
        ensures
            match r {
                Ok(v) => self.spec_physical_scalar(idx as int) == Ok::<
                    ScalarValueView,
                    RayexecError,
                >(v@),
                Err(e) => self.spec_physical_scalar(idx as int) == Err::<
                    ScalarValueView,
                    RayexecError,
                >(e),
            },
        decreases self,
    {
        proof {
            use_type_invariant(self);
        }
        let expected = match self.datatype.physical_type() {
            Ok(p) => p,
            Err(e) => {
                return Err(e);
            },
        };
        let got = self.data.physical_type();
        if !(got == expected || (expected == PhysicalType::Utf8 && got == PhysicalType::Binary)) {
            return Err(RayexecError::PhysicalTypeMismatch { expected, got });
        }
        if idx >= self.data.len() {
            return Err(RayexecError::OutOfBounds { index: idx, len: self.data.len() });
        }
        match (&self.datatype, &self.data) {
            (DataType::Null, ArrayData2::UntypedNull(_)) => Ok(ScalarValue::Null),
            (DataType::Boolean, ArrayData2::Boolean(s)) => Ok(ScalarValue::Boolean(s.value(idx))),
            (DataType::Float16, ArrayData2::Float16(s)) => Ok(
                ScalarValue::Float16(s.as_slice()[idx]),
            ),
            (DataType::Float32, ArrayData2::Float32(s)) => Ok(
                ScalarValue::Float32(s.as_slice()[idx]),
            ),
            (DataType::Float64, ArrayData2::Float64(s)) => Ok(
                ScalarValue::Float64(s.as_slice()[idx]),
            ),
            (DataType::Int8, ArrayData2::Int8(s)) => Ok(ScalarValue::Int8(s.as_slice()[idx])),
            (DataType::Int16, ArrayData2::Int16(s)) => Ok(ScalarValue::Int16(s.as_slice()[idx])),
            (DataType::Int32, ArrayData2::Int32(s)) => Ok(ScalarValue::Int32(s.as_slice()[idx])),
            (DataType::Int64, ArrayData2::Int64(s)) => Ok(ScalarValue::Int64(s.as_slice()[idx])),
            (DataType::Int128, ArrayData2::Int128(s)) => Ok(
                ScalarValue::Int128(s.as_slice()[idx]),
            ),
            (DataType::UInt8, ArrayData2::UInt8(s)) => Ok(ScalarValue::UInt8(s.as_slice()[idx])),
            (DataType::UInt16, ArrayData2::UInt16(s)) => Ok(
                ScalarValue::UInt16(s.as_slice()[idx]),
            ),
            (DataType::UInt32, ArrayData2::UInt32(s)) => Ok(
                ScalarValue::UInt32(s.as_slice()[idx]),
            ),
            (DataType::UInt64, ArrayData2::UInt64(s)) => Ok(
                ScalarValue::UInt64(s.as_slice()[idx]),
            ),
            (DataType::UInt128, ArrayData2::UInt128(s)) => Ok(
                ScalarValue::UInt128(s.as_slice()[idx]),
            ),
            (DataType::Decimal64(m), ArrayData2::Int64(s)) => Ok(
                ScalarValue::Decimal64(
                    Decimal64Scalar {
                        precision: m.precision,
                        scale: m.scale,
                        value: s.as_slice()[idx],
                    },
                ),
            ),
            (DataType::Decimal128(m), ArrayData2::Int128(s)) => Ok(
                ScalarValue::Decimal128(
                    Decimal128Scalar {
                        precision: m.precision,
                        scale: m.scale,
                        value: s.as_slice()[idx],
                    },
                ),
            ),
            (DataType::Date32, ArrayData2::Int32(s)) => Ok(ScalarValue::Date32(s.as_slice()[idx])),
            (DataType::Date64, ArrayData2::Int64(s)) => Ok(ScalarValue::Date64(s.as_slice()[idx])),
            (DataType::Timestamp(m), ArrayData2::Int64(s)) => Ok(
                ScalarValue::Timestamp(TimestampScalar { unit: m.unit, value: s.as_slice()[idx] }),
            ),
            (DataType::Interval, ArrayData2::Interval(s)) => Ok(
                ScalarValue::Interval(s.as_slice()[idx]),
            ),
            (DataType::Utf8, ArrayData2::Binary(b)) => {
                match b.get(idx) {
                    Some(bytes) => match decode_text(bytes) {
                        Ok(text) => Ok(ScalarValue::Utf8(text.to_owned())),
                        Err(e) => Err(e),
                    },
                    None => Err(RayexecError::InternalInvariantViolated),
                }
            },
            (DataType::Binary, ArrayData2::Binary(b)) => {
                match b.get(idx) {
                    Some(bytes) => Ok(ScalarValue::Binary(vstd::slice::slice_to_vec(bytes))),
                    None => Err(RayexecError::InternalInvariantViolated),
                }
            },
            (DataType::List(_), ArrayData2::List(list)) => {
                proof {
                    use_type_invariant(&**list);
                }
                let meta = list.metadata.as_slice()[idx];
                let start: usize = meta.offset as usize;
                let count: usize = meta.len as usize;
                let ghost child = list.spec_child();
                let mut values: Vec<ScalarValue> = Vec::new();
                let mut k: usize = 0;
                assert(crate::arrays::scalar::scalar_views(values@) =~= Seq::empty());
                while k < count
                    invariant
                        child == list.spec_child(),
                        start + count <= usize::MAX,
                        self.data is List,
                        self.data->List_0 == *list,
                        list.wf(),
                        start + count <= child.spec_data().spec_len(),
                        k <= count,
                        values.len() == k,
                        spec_list_values(child, start as int, k as nat) == Ok::<
                            Seq<ScalarValueView>,
                            RayexecError,
                        >(crate::arrays::scalar::scalar_views(values@)),
                    decreases count - k,
                {
                    match list.array.physical_scalar(start + k) {
                        Ok(v) => {
                            proof {
                                assert(crate::arrays::scalar::scalar_views(values@).push(v@)
                                    =~= crate::arrays::scalar::scalar_views(values@.push(v)));
                            }
                            values.push(v);
                        },
                        Err(e) => {
                            proof {
                                assert(spec_list_values(child, start as int, (k + 1) as nat)
                                    == Err::<Seq<ScalarValueView>, RayexecError>(e));
                                lemma_list_values_error(
                                    child,
                                    start as int,
                                    (k + 1) as nat,
                                    count as nat,
                                );
                            }
                            return Err(e);
                        },
                    }
                    k += 1;
                }
                Ok(ScalarValue::new_list(values))
            },
            _ => {
                proof {
                    assert(false);
                }
                Err(RayexecError::InternalInvariantViolated)
            },
        }
    }
}

/// Wraps `Arc::clone`: another handle to the same allocation, hence to the
/// same value.
#[verifier::external_body]
fn arc_clone<T>(handle: &Arc<T>) -> (r: Arc<T>)
    ensures
        r == *handle,
{
    Arc::clone(handle)
}

/// A vector of `len` copies of `value`.
pub fn filled<T: Copy>(len: usize, value: T) -> (r: Vec<T>)
    ensures
        r@ == Seq::new(len as nat, |i: int| value),
{
    let mut out: Vec<T> = Vec::new();
    let mut i: usize = 0;
    while i < len
        invariant
            i <= len,
            out.len() == i,
            forall|j: int| 0 <= j < i ==> out[j] == value,
        decreases len - i,
    {
        out.push(value);
        i += 1;
    }
    assert(out@ =~= Seq::new(len as nat, |i: int| value));
    out
}

impl BinaryData {
    /// Another handle to the same storage.
    pub fn share(&self) -> (r: BinaryData)
        ensures
            r == *self,
    {
        match self {
            BinaryData::Binary(s) => BinaryData::Binary(arc_clone(s)),
            BinaryData::LargeBinary(s) => BinaryData::LargeBinary(arc_clone(s)),
            BinaryData::German(s) => BinaryData::German(arc_clone(s)),
        }
    }
}

impl ArrayData2 {
    /// Another handle to the same buffers. No value is copied.
    pub fn share(&self) -> (r: ArrayData2)
        ensures
            r == *self,
    {
        match self {
            ArrayData2::UntypedNull(s) => ArrayData2::UntypedNull(*s),
            ArrayData2::Boolean(s) => ArrayData2::Boolean(arc_clone(s)),
            ArrayData2::Float16(s) => ArrayData2::Float16(arc_clone(s)),
            ArrayData2::Float32(s) => ArrayData2::Float32(arc_clone(s)),
            ArrayData2::Float64(s) => ArrayData2::Float64(arc_clone(s)),
            ArrayData2::Int8(s) => ArrayData2::Int8(arc_clone(s)),
            ArrayData2::Int16(s) => ArrayData2::Int16(arc_clone(s)),
            ArrayData2::Int32(s) => ArrayData2::Int32(arc_clone(s)),
            ArrayData2::Int64(s) => ArrayData2::Int64(arc_clone(s)),
            ArrayData2::Int128(s) => ArrayData2::Int128(arc_clone(s)),
            ArrayData2::UInt8(s) => ArrayData2::UInt8(arc_clone(s)),
            ArrayData2::UInt16(s) => ArrayData2::UInt16(arc_clone(s)),
            ArrayData2::UInt32(s) => ArrayData2::UInt32(arc_clone(s)),
            ArrayData2::UInt64(s) => ArrayData2::UInt64(arc_clone(s)),
            ArrayData2::UInt128(s) => ArrayData2::UInt128(arc_clone(s)),
            ArrayData2::Interval(s) => ArrayData2::Interval(arc_clone(s)),
            ArrayData2::Binary(b) => ArrayData2::Binary(b.share()),
            ArrayData2::List(s) => ArrayData2::List(arc_clone(s)),
        }
    }

    /// Whether every physical row holds the zero value of the storage:
    /// `false`, zero, the empty byte string, the empty list.
    pub open spec fn spec_zeroed(&self) -> bool {
        match self {
            ArrayData2::UntypedNull(_) => true,
            ArrayData2::Boolean(s) => forall|i: int| 0 <= i < s@.len() ==> !s@[i],
            ArrayData2::Float16(s) => forall|i: int| 0 <= i < s@.len() ==> s@[i] == 0,
            ArrayData2::Float32(s) => forall|i: int| 0 <= i < s@.len() ==> s@[i] == 0,
            ArrayData2::Float64(s) => forall|i: int| 0 <= i < s@.len() ==> s@[i] == 0,
            ArrayData2::Int8(s) => forall|i: int| 0 <= i < s@.len() ==> s@[i] == 0,
            ArrayData2::Int16(s) => forall|i: int| 0 <= i < s@.len() ==> s@[i] == 0,
            ArrayData2::Int32(s) => forall|i: int| 0 <= i < s@.len() ==> s@[i] == 0,
            ArrayData2::Int64(s) => forall|i: int| 0 <= i < s@.len() ==> s@[i] == 0,
            ArrayData2::Int128(s) => forall|i: int| 0 <= i < s@.len() ==> s@[i] == 0,
            ArrayData2::UInt8(s) => forall|i: int| 0 <= i < s@.len() ==> s@[i] == 0,
            ArrayData2::UInt16(s) => forall|i: int| 0 <= i < s@.len() ==> s@[i] == 0,
            ArrayData2::UInt32(s) => forall|i: int| 0 <= i < s@.len() ==> s@[i] == 0,
            ArrayData2::UInt64(s) => forall|i: int| 0 <= i < s@.len() ==> s@[i] == 0,
            ArrayData2::UInt128(s) => forall|i: int| 0 <= i < s@.len() ==> s@[i] == 0,
            ArrayData2::Interval(s) => forall|i: int|
                0 <= i < s@.len() ==> s@[i] == (Interval { months: 0, days: 0, nanos: 0 }),
            ArrayData2::Binary(b) => forall|i: int|
                0 <= i < b.spec_values().len() ==> b.spec_values()[i] == Seq::<u8>::empty(),
            ArrayData2::List(s) => forall|i: int|
                0 <= i < s.spec_metadata().len() ==> s.spec_metadata()[i] == (ListItemMetadata {
                    offset: 0,
                    len: 0,
                }),
        }
    }
}

impl PhysicalType {
    /// Zeroed storage of `len` rows of this physical type: every row holds
    /// `false`, zero, or the empty byte string. Text and bytes get a byte
    /// heap of their own. Lists need a child array and dictionaries a
    /// source, which a physical type alone does not give: `NotImplemented`.
    pub fn zeroed_array_data(&self, len: usize) -> (r: Result<ArrayData2, RayexecError>)
        ensures
            match r {
                Ok(data) => {
                    &&& data.wf()
                    &&& data.spec_len() == len
                    &&& storage_holds(data, *self)
                    &&& data.spec_zeroed()
                    &&& !(*self is List) && !(*self is Dictionary)
                },
                Err(e) => (*self is List || *self is Dictionary) && e
                    == RayexecError::NotImplemented,
            },
    {
        Ok(
            match self {
                PhysicalType::UntypedNull => ArrayData2::UntypedNull(UntypedNullStorage(len)),
                PhysicalType::Boolean => ArrayData2::Boolean(
                    Arc::new(BooleanStorage(Bitmap::new_with_all_false(len))),
                ),
                PhysicalType::Float16 => ArrayData2::Float16(
                    Arc::new(PrimitiveStorage::from_vec(filled(len, 0u16))),
                ),
                PhysicalType::Float32 => ArrayData2::Float32(
                    Arc::new(PrimitiveStorage::from_vec(filled(len, 0u32))),
                ),
                PhysicalType::Float64 => ArrayData2::Float64(
                    Arc::new(PrimitiveStorage::from_vec(filled(len, 0u64))),
                ),
                PhysicalType::Int8 => ArrayData2::Int8(
                    Arc::new(PrimitiveStorage::from_vec(filled(len, 0i8))),
                ),
                PhysicalType::Int16 => ArrayData2::Int16(
                    Arc::new(PrimitiveStorage::from_vec(filled(len, 0i16))),
                ),
                PhysicalType::Int32 => ArrayData2::Int32(
                    Arc::new(PrimitiveStorage::from_vec(filled(len, 0i32))),
                ),
                PhysicalType::Int64 => ArrayData2::Int64(
                    Arc::new(PrimitiveStorage::from_vec(filled(len, 0i64))),
                ),
                PhysicalType::Int128 => ArrayData2::Int128(
                    Arc::new(PrimitiveStorage::from_vec(filled(len, 0i128))),
                ),
                PhysicalType::UInt8 => ArrayData2::UInt8(
                    Arc::new(PrimitiveStorage::from_vec(filled(len, 0u8))),
                ),
                PhysicalType::UInt16 => ArrayData2::UInt16(
                    Arc::new(PrimitiveStorage::from_vec(filled(len, 0u16))),
                ),
                PhysicalType::UInt32 => ArrayData2::UInt32(
                    Arc::new(PrimitiveStorage::from_vec(filled(len, 0u32))),
                ),
                PhysicalType::UInt64 => ArrayData2::UInt64(
                    Arc::new(PrimitiveStorage::from_vec(filled(len, 0u64))),
                ),
                PhysicalType::UInt128 => ArrayData2::UInt128(
                    Arc::new(PrimitiveStorage::from_vec(filled(len, 0u128))),
                ),
                PhysicalType::Interval => ArrayData2::Interval(
                    Arc::new(
                        PrimitiveStorage::from_vec(
                            filled(len, Interval { months: 0, days: 0, nanos: 0 }),
                        ),
                    ),
                ),
                PhysicalType::Utf8 | PhysicalType::Binary => {
                    let mut german = GermanVarlenStorage::with_metadata_capacity(len);
                    let empty: Vec<u8> = Vec::new();
                    let mut i: usize = 0;
                    while i < len
                        invariant
                            i <= len,
                            german.wf(),
                            empty@.len() == 0,
                            german@ == Seq::new(i as nat, |j: int| Seq::<u8>::empty()),
                        decreases len - i,
                    {
                        let pushed = german.try_push(empty.as_slice());
                        assert(pushed is Ok);
                        assert(empty@ =~= Seq::<u8>::empty());
                        assert(german@ =~= Seq::new((i + 1) as nat, |j: int| Seq::<u8>::empty()));
                        i += 1;
                    }
                    ArrayData2::Binary(BinaryData::German(Arc::new(german)))
                },
                PhysicalType::List | PhysicalType::Dictionary => {
                    return Err(RayexecError::NotImplemented);
                },
            },
        )
    }
}

impl DataTypeView {
    /// How many list types are nested at the top of the type.
    pub open spec fn list_depth(self) -> nat
        decreases self,
    {
        match self {
            DataTypeView::List(inner) => 1 + inner.list_depth(),
            _ => 0,
        }
    }

    /// Whether arrays of the type can be stored: the type is not a struct
    /// type, nor a list of one.
    pub open spec fn storable(self) -> bool
        decreases self,
    {
        match self {
            DataTypeView::Struct(_) => false,
            DataTypeView::List(inner) => inner.storable(),
            _ => true,
        }
    }
}

impl Array {
    /// Whether the array is what `try_new` makes for type `dt` and
    /// `capacity` rows: not dictionary-encoded, every row valid, storage of
    /// the type's physical type, every row zeroed, and for a list type a
    /// child array made in the same way.
    pub open spec fn spec_is_fresh(&self, dt: DataTypeView, capacity: nat) -> bool
        decreases self,
    {
        &&& self.spec_datatype()@ == dt
        &&& !self.spec_is_dictionary()
        &&& self.spec_validity() == Seq::new(capacity, |i: int| true)
        &&& self.spec_data().spec_len() == capacity
        &&& dt.physical_type() is Some
        &&& storage_holds(self.spec_data(), dt.physical_type()->0)
        &&& self.spec_data().spec_zeroed()
        &&& match self.spec_data() {
            ArrayData2::List(s) => dt is List && s.spec_child().spec_is_fresh(
                *dt->List_0,
                capacity,
            ),
            _ => true,
        }
    }

    /// An empty array that owns no buffer.
    fn placeholder() -> (r: Array)
        ensures
            r.wf(),
    {
        Array {
            datatype: DataType::Null,
            validity: Validity::new_all_valid(0),
            dictionary: None,
            data: ArrayData2::UntypedNull(UntypedNullStorage(0)),
        }
    }

    /// Create a new array with the given capacity.
    ///
    /// This will take care of initializing the primary and secondary data
    /// buffers depending on the type: a byte heap for text and bytes, a
    /// child array of the same capacity for lists. Every row is valid and
    /// zeroed. Types that cannot be stored give `NotImplemented`.
    pub fn try_new(datatype: DataType, capacity: usize) -> (r: Result<Array, RayexecError>)
        ensures
            match r {
                Ok(a) => a.wf() && datatype@.storable() && a.spec_is_fresh(
                    datatype@,
                    capacity as nat,
                ),
                Err(e) => !datatype@.storable() && e == RayexecError::NotImplemented,
            },
        decreases datatype@.list_depth(),
    {
        let data = match &datatype {
            DataType::Struct(_) => {
                return Err(RayexecError::NotImplemented);
            },
            DataType::List(m) => {
                let child = match Array::try_new((&*m.datatype).clone(), capacity) {
                    Ok(child) => child,
                    Err(e) => {
                        return Err(e);
                    },
                };
                let metadata = PrimitiveStorage::from_vec(
                    filled(capacity, ListItemMetadata { offset: 0, len: 0 }),
                );
                ArrayData2::List(Arc::new(ListStorage { metadata, array: child }))
            },
            other => {
                let physical = match other.physical_type() {
                    Ok(physical) => physical,
                    Err(e) => {
                        return Err(e);
                    },
                };
                match physical.zeroed_array_data(capacity) {
                    Ok(data) => data,
                    Err(e) => {
                        return Err(e);
                    },
                }
            },
        };
        Ok(Array { datatype, validity: Validity::new_all_valid(capacity), dictionary: None, data })
    }

    /// An array of `len` nulls of the null type: one physical row, never
    /// valid, read by every logical row.
    pub fn new_untyped_null_array(len: usize) -> (r: Array)
        ensures
            r.wf(),
            r.spec_datatype()@ == DataTypeView::Null,
            r.spec_logical_len() == len,
            r.spec_data().spec_len() == 1,
            r.spec_is_dictionary(),
            r.spec_selection() == Seq::new(len as nat, |i: int| 0usize),
            forall|i: int| 0 <= i < len ==> !r.spec_is_valid(i),
    {
        Array {
            datatype: DataType::Null,
            validity: Validity::new_all_valid(len),
            dictionary: Some(
                DictionaryBuffer {
                    indices: SelectionVector::repeated(len, 0),
                    validity: Validity::new_all_invalid(1),
                },
            ),
            data: ArrayData2::UntypedNull(UntypedNullStorage(1)),
        }
    }

    /// Creates a new typed array with all values being set to null: one
    /// zeroed physical row, never valid, read by every logical row.
    pub fn new_typed_null_array(datatype: DataType, len: usize) -> (r: Result<Array, RayexecError>)
        ensures
            match r {
                Ok(a) => {
                    &&& a.wf()
                    &&& datatype@.storable()
                    &&& a.spec_datatype()@ == datatype@
                    &&& a.spec_logical_len() == len
                    &&& a.spec_data().spec_len() == 1
                    &&& storage_holds(a.spec_data(), datatype@.physical_type()->0)
                    &&& a.spec_data().spec_zeroed()
                    &&& a.spec_is_dictionary()
                    &&& a.spec_selection() == Seq::new(len as nat, |i: int| 0usize)
                    &&& forall|i: int| 0 <= i < len ==> !a.spec_is_valid(i)
                },
                Err(e) => !datatype@.storable() && e == RayexecError::NotImplemented,
            },
    {
        let one = match Array::try_new(datatype, 1) {
            Ok(a) => a,
            Err(e) => {
                return Err(e);
            },
        };
        proof {
            use_type_invariant(&one);
        }
        let Array { datatype, validity: _, dictionary: _, data } = one;
        Ok(
            Array {
                datatype,
                validity: Validity::new_all_valid(len),
                dictionary: Some(
                    DictionaryBuffer {
                        indices: SelectionVector::repeated(len, 0),
                        validity: Validity::new_all_invalid(1),
                    },
                ),
                data,
            },
        )
    }

    /// The array of type `datatype` over `data`, every row valid.
    pub fn new_with_array_data(datatype: DataType, data: ArrayData2) -> (r: Array)
        ensures
            r.wf(),
            r.spec_datatype() == datatype,
            r.spec_data() == data,
            !r.spec_is_dictionary(),
            r.spec_validity() == Seq::new(data.spec_len(), |i: int| true),
    {
        data.check_wf();
        let validity = Validity::new_all_valid(data.len());
        Array { datatype, validity, dictionary: None, data }
    }

    /// The array of type `datatype` over `data` with the validity mask
    /// `validity`, which must have one bit per row of `data`.
    pub fn new_with_validity_and_array_data(
        datatype: DataType,
        validity: Validity,
        data: ArrayData2,
    ) -> (r: Array)
        requires
            validity@.len() == data.spec_len(),
        ensures
            r.wf(),
            r.spec_datatype() == datatype,
            r.spec_data() == data,
            !r.spec_is_dictionary(),
            r.spec_validity() == validity@,
    {
        proof {
            use_type_invariant(&validity);
        }
        data.check_wf();
        Array { datatype, validity, dictionary: None, data }
    }
}

/// The rows of `values` that `sel` picks, in the order of `sel`.
pub open spec fn select_values<T>(values: Seq<T>, sel: Seq<usize>) -> Seq<T>
    recommends
        in_bounds(sel, values.len()),
{
    Seq::new(sel.len(), |i: int| values[sel[i] as int])
}

/// The error for storage of the wrong physical type.
pub open spec fn mismatch(expected: PhysicalType, data: ArrayData2) -> RayexecError {
    RayexecError::PhysicalTypeMismatch { expected, got: data.spec_physical_type() }
}

/// Whether physical row `idx` of `data` equals `scalar`: the storage must be
/// that of the scalar's type, else the comparison is a
/// `PhysicalTypeMismatch`. Floating-point values compare as IEEE 754 asks;
/// decimals and timestamps compare by their stored integer alone. Scalars
/// of a half-precision, struct or list type are not compared yet.
pub open spec fn spec_cell_eq(data: ArrayData2, idx: int, scalar: ScalarValueView) -> Result<
    bool,
    RayexecError,
> {
    match scalar {
        ScalarValueView::Boolean(v) => match data {
            ArrayData2::Boolean(s) => Ok(s@[idx] == v),
            _ => Err(mismatch(PhysicalType::Boolean, data)),
        },
        ScalarValueView::Int8(v) => match data {
            ArrayData2::Int8(s) => Ok(s@[idx] == v),
            _ => Err(mismatch(PhysicalType::Int8, data)),
        },
        ScalarValueView::Int16(v) => match data {
            ArrayData2::Int16(s) => Ok(s@[idx] == v),
            _ => Err(mismatch(PhysicalType::Int16, data)),
        },
        ScalarValueView::Int32(v) => match data {
            ArrayData2::Int32(s) => Ok(s@[idx] == v),
            _ => Err(mismatch(PhysicalType::Int32, data)),
        },
        ScalarValueView::Int64(v) => match data {
            ArrayData2::Int64(s) => Ok(s@[idx] == v),
            _ => Err(mismatch(PhysicalType::Int64, data)),
        },
        ScalarValueView::Int128(v) => match data {
            ArrayData2::Int128(s) => Ok(s@[idx] == v),
            _ => Err(mismatch(PhysicalType::Int128, data)),
        },
        ScalarValueView::UInt8(v) => match data {
            ArrayData2::UInt8(s) => Ok(s@[idx] == v),
            _ => Err(mismatch(PhysicalType::UInt8, data)),
        },
        ScalarValueView::UInt16(v) => match data {
            ArrayData2::UInt16(s) => Ok(s@[idx] == v),
            _ => Err(mismatch(PhysicalType::UInt16, data)),
        },
        ScalarValueView::UInt32(v) => match data {
            ArrayData2::UInt32(s) => Ok(s@[idx] == v),
            _ => Err(mismatch(PhysicalType::UInt32, data)),
        },
        ScalarValueView::UInt64(v) => match data {
            ArrayData2::UInt64(s) => Ok(s@[idx] == v),
            _ => Err(mismatch(PhysicalType::UInt64, data)),
        },
        ScalarValueView::UInt128(v) => match data {
            ArrayData2::UInt128(s) => Ok(s@[idx] == v),
            _ => Err(mismatch(PhysicalType::UInt128, data)),
        },
        ScalarValueView::Float32(v) => match data {
            ArrayData2::Float32(s) => Ok(spec_ieee_eq_32(s@[idx], v)),
            _ => Err(mismatch(PhysicalType::Float32, data)),
        },
        ScalarValueView::Float64(v) => match data {
            ArrayData2::Float64(s) => Ok(spec_ieee_eq_64(s@[idx], v)),
            _ => Err(mismatch(PhysicalType::Float64, data)),
        },
        ScalarValueView::Date32(v) => match data {
            ArrayData2::Int32(s) => Ok(s@[idx] == v),
            _ => Err(mismatch(PhysicalType::Int32, data)),
        },
        ScalarValueView::Date64(v) => match data {
            ArrayData2::Int64(s) => Ok(s@[idx] == v),
            _ => Err(mismatch(PhysicalType::Int64, data)),
        },
        ScalarValueView::Interval(v) => match data {
            ArrayData2::Interval(s) => Ok(s@[idx] == v),
            _ => Err(mismatch(PhysicalType::Interval, data)),
        },
        ScalarValueView::Utf8(v) => match data {
            ArrayData2::Binary(b) => Ok(b.spec_values()[idx] == encode_utf8(v)),
            _ => Err(mismatch(PhysicalType::Utf8, data)),
        },
        ScalarValueView::Binary(v) => match data {
            ArrayData2::Binary(b) => Ok(b.spec_values()[idx] == v),
            _ => Err(mismatch(PhysicalType::Binary, data)),
        },
        ScalarValueView::Timestamp(v) => match data {
            ArrayData2::Int64(s) => Ok(s@[idx] == v.value),
            _ => Err(mismatch(PhysicalType::Int64, data)),
        },
        ScalarValueView::Decimal64(v) => match data {
            ArrayData2::Int64(s) => Ok(s@[idx] == v.value),
            _ => Err(mismatch(PhysicalType::Int64, data)),
        },
        ScalarValueView::Decimal128(v) => match data {
            ArrayData2::Int128(s) => Ok(s@[idx] == v.value),
            _ => Err(mismatch(PhysicalType::Int128, data)),
        },
        _ => Err(RayexecError::NotImplemented),
    }
}

impl BinaryData {
    /// Whether the value of row `idx` is `bytes`.
    pub fn value_eq(&self, idx: usize, bytes: &[u8]) -> (r: bool)
        requires
            idx < self.spec_values().len(),
        ensures
            r == (self.spec_values()[idx as int] == bytes@),
    {
        match self {
            BinaryData::German(s) => s.value_eq(idx, bytes),
            _ => match self.get(idx) {
                Some(v) => bytes_eq(v, bytes),
                None => false,
            },
        }
    }
}

impl Array {
    /// The validity mask of the physical rows: that of the source in a
    /// dictionary-encoded array, that of the primary buffer otherwise.
    pub open spec fn spec_physical_validity(&self) -> Seq<bool> {
        if self.spec_is_dictionary() {
            self.spec_source_validity()
        } else {
            self.spec_validity()
        }
    }

    /// Installs `validity` as the mask of the primary buffer. Fails with
    /// `InvalidValidityLength`, leaving the array as it was, when the mask
    /// does not have one bit per row of the primary buffer.
    pub fn put_validity(&mut self, validity: Validity) -> (r: Result<(), RayexecError>)
        ensures
            final(self).wf(),
            final(self).spec_datatype() == old(self).spec_datatype(),
            final(self).spec_data() == old(self).spec_data(),
            final(self).spec_is_dictionary() == old(self).spec_is_dictionary(),
            final(self).spec_is_dictionary() ==> final(self).spec_selection() == old(self).spec_selection() && final(self).spec_source_validity() == old(self).spec_source_validity(),
            match r {
                Ok(_) => validity@.len() == old(self).spec_capacity() && final(self).spec_validity() == validity@,
                Err(e) => validity@.len() != old(self).spec_capacity() && final(self).spec_validity() == old(self).spec_validity() && e
                    == (RayexecError::InvalidValidityLength {
                    got: validity@.len() as usize,
                    want: old(self).spec_capacity() as usize,
                }),
            },
    {
        proof {
            use_type_invariant(&*self);
            use_type_invariant(&validity);
        }
        let want = self.capacity();
        if validity.len() != want {
            return Err(RayexecError::InvalidValidityLength { got: validity.len(), want });
        }
        let mut taken = Array::placeholder();
        core::mem::swap(self, &mut taken);
        let Array { datatype, validity: _, dictionary, data } = taken;
        *self = Array { datatype, validity, dictionary, data };
        Ok(())
    }

    /// Sets the validity for a value at a given physical index.
    pub fn set_physical_validity(&mut self, idx: usize, valid: bool)
        requires
            idx < old(self).spec_data().spec_len(),
        ensures
            final(self).wf(),
            final(self).spec_datatype() == old(self).spec_datatype(),
            final(self).spec_data() == old(self).spec_data(),
            final(self).spec_is_dictionary() == old(self).spec_is_dictionary(),
            final(self).spec_is_dictionary() ==> final(self).spec_selection() == old(self).spec_selection() && final(self).spec_validity() == old(self).spec_validity(),
            final(self).spec_physical_validity() == old(self).spec_physical_validity().update(
                idx as int,
                valid,
            ),
    {
        proof {
            use_type_invariant(&*self);
        }
        let mut taken = Array::placeholder();
        core::mem::swap(self, &mut taken);
        let Array { datatype, validity: mut validity, dictionary, data } = taken;
        let dictionary = match dictionary {
            None => {
                validity.set(idx, valid);
                None
            },
            Some(d) => {
                let DictionaryBuffer { indices, validity: mut source } = d;
                source.set(idx, valid);
                Some(DictionaryBuffer { indices, validity: source })
            },
        };
        *self = Array { datatype, validity, dictionary, data };
    }

    /// Makes `selection` the row indices into the physical data, whatever
    /// selection there was. Every index must be a physical row.
    pub fn put_selection(&mut self, selection: SelectionVector)
        requires
            in_bounds(selection@, old(self).spec_data().spec_len()),
        ensures
            final(self).wf(),
            final(self).spec_datatype() == old(self).spec_datatype(),
            final(self).spec_data() == old(self).spec_data(),
            final(self).spec_is_dictionary(),
            final(self).spec_selection() == selection@,
            final(self).spec_validity() == Seq::new(selection@.len(), |i: int| true),
            final(self).spec_source_validity() == old(self).spec_physical_validity(),
    {
        proof {
            use_type_invariant(&*self);
        }
        let mut taken = Array::placeholder();
        core::mem::swap(self, &mut taken);
        let Array { datatype, validity, dictionary, data } = taken;
        let source = match dictionary {
            None => validity,
            Some(d) => d.validity,
        };
        *self = Array {
            datatype,
            validity: Validity::new_all_valid(selection.len()),
            dictionary: Some(DictionaryBuffer { indices: selection, validity: source }),
            data,
        };
    }

    /// Updates this array's selection vector.
    ///
    /// Takes into account any existing selection. This allows for repeated
    /// selection (filtering) against the same array. Every index of
    /// `selection` must be a logical row of the array.
    pub fn select_mut2(&mut self, selection: SelectionVector)
        requires
            in_bounds(selection@, old(self).spec_logical_len()),
        ensures
            final(self).wf(),
            final(self).spec_datatype() == old(self).spec_datatype(),
            final(self).spec_data() == old(self).spec_data(),
            final(self).spec_is_dictionary(),
            final(self).spec_logical_len() == selection@.len(),
            final(self).spec_selection() == Seq::new(
                selection@.len(),
                |i: int| old(self).spec_physical_index(selection@[i] as int) as usize,
            ),
            forall|i: int|
                0 <= i < selection@.len() ==> final(self).spec_is_valid(i) == old(self).spec_is_valid(selection@[i] as int),
            final(self).spec_logical_values() == select_values(
                old(self).spec_logical_values(),
                selection@,
            ),
    {
        proof {
            use_type_invariant(&*self);
        }
        let ghost before = *self;
        let mut taken = Array::placeholder();
        core::mem::swap(self, &mut taken);
        let Array { datatype, validity, dictionary, data } = taken;
        let (top, dict) = match dictionary {
            None => {
                let top = Validity::new_all_valid(selection.len());
                (top, DictionaryBuffer { indices: selection, validity })
            },
            Some(d) => {
                let indices = d.indices.select(&selection);
                let top = validity.select(&selection);
                (top, DictionaryBuffer { indices, validity: d.validity })
            },
        };
        let r = Array { datatype, validity: top, dictionary: Some(dict), data };
        proof {
            assert(r.spec_selection() =~= Seq::new(
                selection@.len(),
                |i: int| before.spec_physical_index(selection@[i] as int) as usize,
            ));
            assert forall|i: int| 0 <= i < selection@.len() implies r.spec_logical_value(i)
                == before.spec_logical_value(selection@[i] as int) by {
                assert(selection@[i] < before.spec_logical_len());
            }
            assert(r.spec_logical_values() =~= select_values(
                before.spec_logical_values(),
                selection@,
            ));
        }
        *self = r;
    }

    /// Selects rows of the array.
    ///
    /// This will convert the underlying array buffer into a dictionary
    /// buffer: the primary buffer becomes the index sequence, composed
    /// through the indices that were there, and the data becomes the source,
    /// untouched. Fails with `OutOfBounds`, leaving the array as it was, at
    /// the first index that is not a logical row.
    pub fn select(&mut self, selection: Vec<usize>) -> (r: Result<(), RayexecError>)
        ensures
            final(self).wf(),
            match r {
                Ok(_) => {
                    &&& in_bounds(selection@, old(self).spec_logical_len())
                    &&& final(self).spec_datatype() == old(self).spec_datatype()
                    &&& final(self).spec_data() == old(self).spec_data()
                    &&& final(self).spec_physical_type() == PhysicalType::Dictionary
                    &&& final(self).spec_logical_len() == selection@.len()
                    &&& final(self).spec_selection() == Seq::new(
                        selection@.len(),
                        |i: int| old(self).spec_physical_index(selection@[i] as int) as usize,
                    )
                    &&& forall|i: int|
                        0 <= i < selection@.len() ==> final(self).spec_is_valid(i) == old(self).spec_is_valid(selection@[i] as int)
                    &&& final(self).spec_logical_values() == select_values(
                        old(self).spec_logical_values(),
                        selection@,
                    )
                },
                Err(e) => {
                    let pos = first_out_of_bounds(selection@, old(self).spec_logical_len());
                    &&& !in_bounds(selection@, old(self).spec_logical_len())
                    &&& *final(self) == *old(self)
                    &&& 0 <= pos < selection@.len()
                    &&& e == (RayexecError::OutOfBounds {
                        index: selection@[pos],
                        len: old(self).spec_logical_len() as usize,
                    })
                },
            },
    {
        proof {
            use_type_invariant(&*self);
            lemma_first_out_of_bounds(selection@, self.spec_logical_len());
        }
        let len = self.logical_len();
        let sel = SelectionVector::from_vec(selection);
        match sel.first_at_or_above(len) {
            Some(pos) => Err(RayexecError::OutOfBounds { index: sel.get(pos), len }),
            None => {
                self.select_mut2(sel);
                Ok(())
            },
        }
    }

    /// The rows `offset .. offset + count` of the array, as a selection over
    /// the same buffers.
    pub fn slice(&self, offset: usize, count: usize) -> (r: Array)
        requires
            offset + count <= self.spec_logical_len(),
        ensures
            r.wf(),
            r.spec_datatype()@ == self.spec_datatype()@,
            r.spec_data() == self.spec_data(),
            r.spec_is_dictionary(),
            r.spec_logical_len() == count,
            r.spec_selection() == Seq::new(
                count as nat,
                |i: int| self.spec_physical_index(offset + i) as usize,
            ),
            forall|i: int| 0 <= i < count ==> r.spec_is_valid(i) == self.spec_is_valid(offset + i),
            r.spec_logical_values() == self.spec_logical_values().subrange(
                offset as int,
                offset + count,
            ),
    {
        proof {
            use_type_invariant(self);
        }
        let len = self.logical_len();
        assert(offset + count <= len);
        let range = SelectionVector::with_range(offset..(offset + count));
        let (top, dict) = match &self.dictionary {
            None => {
                let top = Validity::new_all_valid(count);
                (top, DictionaryBuffer { indices: range, validity: self.validity.clone() })
            },
            Some(d) => {
                let indices = d.indices.slice_unchecked(offset, count);
                let top = self.validity.select(&range);
                (top, DictionaryBuffer { indices, validity: d.validity.clone() })
            },
        };
        let r = Array {
            datatype: self.datatype.clone(),
            validity: top,
            dictionary: Some(dict),
            data: self.data.share(),
        };
        proof {
            assert(r.spec_selection() =~= Seq::new(
                count as nat,
                |i: int| self.spec_physical_index(offset + i) as usize,
            ));
            assert forall|i: int| 0 <= i < count implies r.spec_logical_value(i)
                == self.spec_logical_value(offset + i) by {
                assert(range@[i] == offset + i);
                lemma_physical_scalar_by_view(r, *self, r.spec_physical_index(i));
            }
            assert(r.spec_logical_values() =~= self.spec_logical_values().subrange(
                offset as int,
                offset + count,
            ));
        }
        r
    }

    /// The rows `offset .. offset + count` of the array, or `OutOfBounds`
    /// when they do not all exist.
    pub fn try_slice(&self, offset: usize, count: usize) -> (r: Result<Array, RayexecError>)
        ensures
            match r {
                Ok(a) => {
                    &&& offset + count <= self.spec_logical_len()
                    &&& a.wf()
                    &&& a.spec_datatype()@ == self.spec_datatype()@
                    &&& a.spec_data() == self.spec_data()
                    &&& a.spec_logical_len() == count
                    &&& a.spec_logical_values() == self.spec_logical_values().subrange(
                        offset as int,
                        offset + count,
                    )
                },
                Err(e) => offset + count > self.spec_logical_len() && e
                    == (RayexecError::OutOfBounds {
                    index: if offset + count <= usize::MAX {
                        (offset + count) as usize
                    } else {
                        usize::MAX
                    },
                    len: self.spec_logical_len() as usize,
                }),
            },
    {
        let len = self.logical_len();
        match offset.checked_add(count) {
            Some(end) => {
                if end > len {
                    return Err(RayexecError::OutOfBounds { index: end, len });
                }
                Ok(self.slice(offset, count))
            },
            None => Err(RayexecError::OutOfBounds { index: usize::MAX, len }),
        }
    }

    /// Whether `scalar` equals logical row `row`: the null scalar equals
    /// exactly the null rows; any other scalar equals a row that is valid
    /// and holds its value.
    pub open spec fn spec_scalar_value_logically_eq(
        &self,
        scalar: ScalarValueView,
        row: int,
    ) -> Result<bool, RayexecError> {
        if !(0 <= row < self.spec_logical_len()) {
            Err(
                RayexecError::OutOfBounds {
                    index: row as usize,
                    len: self.spec_logical_len() as usize,
                },
            )
        } else if scalar is Null {
            Ok(!self.spec_is_valid(row))
        } else {
            match spec_cell_eq(self.spec_data(), self.spec_physical_index(row), scalar) {
                Err(e) => Err(e),
                Ok(eq) => Ok(self.spec_is_valid(row) && eq),
            }
        }
    }

    /// Checks if a scalar value is logically equal to a value in the array.
    pub fn scalar_value_logically_eq(&self, scalar: &ScalarValue, row: usize) -> (r: Result<
        bool,
        RayexecError,
    >)
        ensures
            r == self.spec_scalar_value_logically_eq(scalar@, row as int),
    {
        proof {
            use_type_invariant(self);
        }
        let valid = match self.is_valid(row) {
            Some(valid) => valid,
            None => {
                return Err(RayexecError::OutOfBounds { index: row, len: self.logical_len() });
            },
        };
        let idx = match &self.dictionary {
            Some(d) => d.indices.get(row),
            None => row,
        };
        assert(idx < self.data.spec_len()) by {
            if self.dictionary.is_some() {
                assert(self.dictionary->0.indices@[row as int] < self.data.spec_len());
            }
        }
        let got = self.data.physical_type();
        let eq = match (scalar, &self.data) {
            (ScalarValue::Null, _) => {
                return Ok(!valid);
            },
            (ScalarValue::Boolean(v), ArrayData2::Boolean(s)) => s.value(idx) == *v,
            (ScalarValue::Boolean(_), _) => {
                return Err(RayexecError::PhysicalTypeMismatch { expected: PhysicalType::Boolean, got });
            },
            (ScalarValue::Int8(v), ArrayData2::Int8(s)) => s.as_slice()[idx] == *v,
            (ScalarValue::Int8(_), _) => {
                return Err(RayexecError::PhysicalTypeMismatch { expected: PhysicalType::Int8, got });
            },
            (ScalarValue::Int16(v), ArrayData2::Int16(s)) => s.as_slice()[idx] == *v,
            (ScalarValue::Int16(_), _) => {
                return Err(RayexecError::PhysicalTypeMismatch { expected: PhysicalType::Int16, got });
            },
            (ScalarValue::Int32(v), ArrayData2::Int32(s)) => s.as_slice()[idx] == *v,
            (ScalarValue::Int32(_), _) => {
                return Err(RayexecError::PhysicalTypeMismatch { expected: PhysicalType::Int32, got });
            },
            (ScalarValue::Int64(v), ArrayData2::Int64(s)) => s.as_slice()[idx] == *v,
            (ScalarValue::Int64(_), _) => {
                return Err(RayexecError::PhysicalTypeMismatch { expected: PhysicalType::Int64, got });
            },
            (ScalarValue::Int128(v), ArrayData2::Int128(s)) => s.as_slice()[idx] == *v,
            (ScalarValue::Int128(_), _) => {
                return Err(RayexecError::PhysicalTypeMismatch { expected: PhysicalType::Int128, got });
            },
            (ScalarValue::UInt8(v), ArrayData2::UInt8(s)) => s.as_slice()[idx] == *v,
            (ScalarValue::UInt8(_), _) => {
                return Err(RayexecError::PhysicalTypeMismatch { expected: PhysicalType::UInt8, got });
            },
            (ScalarValue::UInt16(v), ArrayData2::UInt16(s)) => s.as_slice()[idx] == *v,
            (ScalarValue::UInt16(_), _) => {
                return Err(RayexecError::PhysicalTypeMismatch { expected: PhysicalType::UInt16, got });
            },
            (ScalarValue::UInt32(v), ArrayData2::UInt32(s)) => s.as_slice()[idx] == *v,
            (ScalarValue::UInt32(_), _) => {
                return Err(RayexecError::PhysicalTypeMismatch { expected: PhysicalType::UInt32, got });
            },
            (ScalarValue::UInt64(v), ArrayData2::UInt64(s)) => s.as_slice()[idx] == *v,
            (ScalarValue::UInt64(_), _) => {
                return Err(RayexecError::PhysicalTypeMismatch { expected: PhysicalType::UInt64, got });
            },
            (ScalarValue::UInt128(v), ArrayData2::UInt128(s)) => s.as_slice()[idx] == *v,
            (ScalarValue::UInt128(_), _) => {
                return Err(RayexecError::PhysicalTypeMismatch { expected: PhysicalType::UInt128, got });
            },
            (ScalarValue::Float32(v), ArrayData2::Float32(s)) => ieee_eq_32(s.as_slice()[idx], *v),
            (ScalarValue::Float32(_), _) => {
                return Err(RayexecError::PhysicalTypeMismatch { expected: PhysicalType::Float32, got });
            },
            (ScalarValue::Float64(v), ArrayData2::Float64(s)) => ieee_eq_64(s.as_slice()[idx], *v),
            (ScalarValue::Float64(_), _) => {
                return Err(RayexecError::PhysicalTypeMismatch { expected: PhysicalType::Float64, got });
            },
            (ScalarValue::Date32(v), ArrayData2::Int32(s)) => s.as_slice()[idx] == *v,
            (ScalarValue::Date32(_), _) => {
                return Err(RayexecError::PhysicalTypeMismatch { expected: PhysicalType::Int32, got });
            },
            (ScalarValue::Date64(v), ArrayData2::Int64(s)) => s.as_slice()[idx] == *v,
            (ScalarValue::Date64(_), _) => {
                return Err(RayexecError::PhysicalTypeMismatch { expected: PhysicalType::Int64, got });
            },
            (ScalarValue::Interval(v), ArrayData2::Interval(s)) => s.as_slice()[idx] == *v,
            (ScalarValue::Interval(_), _) => {
                return Err(RayexecError::PhysicalTypeMismatch { expected: PhysicalType::Interval, got });
            },
            (ScalarValue::Utf8(v), ArrayData2::Binary(b)) => b.value_eq(idx, v.as_str().as_bytes()),
            (ScalarValue::Utf8(_), _) => {
                return Err(RayexecError::PhysicalTypeMismatch { expected: PhysicalType::Utf8, got });
            },
            (ScalarValue::Binary(v), ArrayData2::Binary(b)) => b.value_eq(idx, v.as_slice()),
            (ScalarValue::Binary(_), _) => {
                return Err(RayexecError::PhysicalTypeMismatch { expected: PhysicalType::Binary, got });
            },
            (ScalarValue::Timestamp(v), ArrayData2::Int64(s)) => s.as_slice()[idx] == v.value,
            (ScalarValue::Timestamp(_), _) => {
                return Err(RayexecError::PhysicalTypeMismatch { expected: PhysicalType::Int64, got });
            },
            (ScalarValue::Decimal64(v), ArrayData2::Int64(s)) => s.as_slice()[idx] == v.value,
            (ScalarValue::Decimal64(_), _) => {
                return Err(RayexecError::PhysicalTypeMismatch { expected: PhysicalType::Int64, got });
            },
            (ScalarValue::Decimal128(v), ArrayData2::Int128(s)) => s.as_slice()[idx] == v.value,
            (ScalarValue::Decimal128(_), _) => {
                return Err(RayexecError::PhysicalTypeMismatch { expected: PhysicalType::Int128, got });
            },
            (ScalarValue::Float16(_), _) | (ScalarValue::Struct(_), _) | (ScalarValue::List(_), _) => {
                return Err(RayexecError::NotImplemented);
            },
        };
        Ok(valid && eq)
    }
}

/// Selecting twice is selecting once with the composed selection: the rows
/// that `s2` picks from what `s1` picks are the rows that the composition
/// of `s1` and `s2` picks.
pub proof fn lemma_select_compose<T>(values: Seq<T>, s1: Seq<usize>, s2: Seq<usize>)
    requires
        in_bounds(s1, values.len()),
        in_bounds(s2, s1.len()),
    ensures
        in_bounds(crate::arrays::selection::compose(s1, s2), values.len()),
        select_values(select_values(values, s1), s2) == select_values(
            values,
            crate::arrays::selection::compose(s1, s2),
        ),
{
    let composed = crate::arrays::selection::compose(s1, s2);
    assert forall|i: int| 0 <= i < composed.len() implies (#[trigger] composed[i])
        < values.len() by {
        assert(s2[i] < s1.len());
    }
    assert(select_values(select_values(values, s1), s2) =~= select_values(values, composed));
}

/// Applying selection `s1` and then `s2` to an array gives the logical
/// sequence that applying their composition gives: where `b` is `a`
/// selected by `s1`, `c` is `b` selected by `s2`, and `d` is `a` selected by
/// the composition, `c` and `d` read the same values.
pub proof fn lemma_select_twice(a: Array, b: Array, c: Array, d: Array, s1: Seq<usize>, s2: Seq<usize>)
    requires
        in_bounds(s1, a.spec_logical_len()),
        in_bounds(s2, s1.len()),
        b.spec_logical_values() == select_values(a.spec_logical_values(), s1),
        c.spec_logical_values() == select_values(b.spec_logical_values(), s2),
        d.spec_logical_values() == select_values(
            a.spec_logical_values(),
            crate::arrays::selection::compose(s1, s2),
        ),
    ensures
        c.spec_logical_values() == d.spec_logical_values(),
{
    lemma_select_compose(a.spec_logical_values(), s1, s2);
}

/// What a physical row reads depends on the data and on the view of the
/// data type alone.
pub proof fn lemma_physical_scalar_by_view(a: Array, b: Array, idx: int)
    requires
        a.spec_datatype()@ == b.spec_datatype()@,
        a.spec_data() == b.spec_data(),
    ensures
        a.spec_physical_scalar(idx) == b.spec_physical_scalar(idx),
{
}

impl Array {
    /// The array that holds `values`, every row valid, under the data type
    /// that goes with elements of kind `S`.
    pub fn from_values<S: PhysicalStorage>(values: Vec<S::Type>) -> (r: Array)
        ensures
            r.wf(),
            r.spec_datatype()@ == S::spec_datatype(),
            !r.spec_is_dictionary(),
            r.spec_logical_len() == values@.len(),
            r.spec_data().spec_physical_type() == S::spec_physical_type(),
            S::spec_values(&r.spec_data()) == values@,
            forall|i: int| 0 <= i < values@.len() ==> r.spec_is_valid(i),
            forall|i: int|
                0 <= i < values@.len() ==> #[trigger] r.spec_logical_value(i) == Ok::<
                    ScalarValueView,
                    RayexecError,
                >(S::spec_scalar(values@[i])),
    {
        let data = S::store(values);
        let r = Array::new_with_array_data(S::datatype(), data);
        proof {
            assert forall|i: int| 0 <= i < values@.len() implies #[trigger] r.spec_logical_value(i)
                == Ok::<ScalarValueView, RayexecError>(S::spec_scalar(values@[i])) by {
                S::lemma_scalar(&r.spec_data(), i);
            }
        }
        r
    }

    /// The array that holds the values of `values`, a row being null where
    /// the option is `None`. The slot of a null row holds the zero of the
    /// element type. Reading the array back gives the same sequence.
    pub fn from_options<S: PhysicalStorage>(values: Vec<Option<S::Type>>) -> (r: Array)
        ensures
            r.wf(),
            r.spec_datatype()@ == S::spec_datatype(),
            !r.spec_is_dictionary(),
            r.spec_logical_len() == values@.len(),
            r.spec_data().spec_physical_type() == S::spec_physical_type(),
            forall|i: int| 0 <= i < values@.len() ==> r.spec_is_valid(i) == values@[i].is_some(),
            S::spec_values(&r.spec_data()) == Seq::new(
                values@.len(),
                |i: int|
                    match values@[i] {
                        Some(v) => v,
                        None => S::spec_zero(),
                    },
            ),
            forall|i: int|
                0 <= i < values@.len() ==> #[trigger] r.spec_logical_value(i) == Ok::<
                    ScalarValueView,
                    RayexecError,
                >(
                    match values@[i] {
                        Some(v) => S::spec_scalar(v),
                        None => ScalarValueView::Null,
                    },
                ),
    {
        let mut validity = Validity::new_all_valid(values.len());
        let mut slots: Vec<S::Type> = Vec::new();
        let mut i: usize = 0;
        while i < values.len()
            invariant
                i <= values.len(),
                slots.len() == i,
                validity.wf(),
                validity@.len() == values.len(),
                forall|j: int| 0 <= j < i ==> validity@[j] == values@[j].is_some(),
                forall|j: int| i <= j < values.len() ==> validity@[j],
                forall|j: int|
                    0 <= j < i ==> slots@[j] == (match values@[j] {
                        Some(v) => v,
                        None => S::spec_zero(),
                    }),
            decreases values.len() - i,
        {
            match values[i] {
                Some(v) => {
                    slots.push(v);
                },
                None => {
                    slots.push(S::zero());
                    validity.set(i, false);
                },
            }
            i += 1;
        }
        let ghost held = slots@;
        let data = S::store(slots);
        let r = Array::new_with_validity_and_array_data(S::datatype(), validity, data);
        assert(held =~= Seq::new(
            values@.len(),
            |i: int|
                match values@[i] {
                    Some(v) => v,
                    None => S::spec_zero(),
                },
        ));
        proof {
            assert forall|i: int| 0 <= i < values@.len() implies #[trigger] r.spec_logical_value(i)
                == Ok::<ScalarValueView, RayexecError>(
                match values@[i] {
                    Some(v) => S::spec_scalar(v),
                    None => ScalarValueView::Null,
                },
            ) by {
                S::lemma_scalar(&r.spec_data(), i);
            }
        }
        r
    }

    /// The array of byte strings `values` under data type `datatype`, a row
    /// being null where the option is `None`. Fails with `OutOfBounds` when
    /// the values are too long to be stored together.
    #[verifier::loop_isolation(false)]
    fn from_byte_options(datatype: DataType, values: &Vec<Option<Vec<u8>>>) -> (r: Result<
        Array,
        RayexecError,
    >)
        requires
            datatype@ == DataTypeView::Utf8 || datatype@ == DataTypeView::Binary,
        ensures
            match r {
                Ok(a) => {
                    &&& a.wf()
                    &&& a.spec_datatype() == datatype
                    &&& !a.spec_is_dictionary()
                    &&& a.spec_logical_len() == values@.len()
                    &&& a.spec_data() is Binary
                    &&& forall|i: int|
                        0 <= i < values@.len() ==> a.spec_is_valid(i) == values@[i].is_some()
                    &&& forall|i: int|
                        0 <= i < values@.len() && values@[i].is_some() ==> (
                        #[trigger] a.spec_data()->Binary_0.spec_values()[i]) == values@[i]->0@
                    &&& heap_bytes(stored_bytes(values@)) <= HEAP_LIMIT
                },
                Err(e) => heap_bytes(stored_bytes(values@)) > HEAP_LIMIT && e is OutOfBounds,
            },
    {
        let mut validity = Validity::new_all_valid(values.len());
        let mut german = GermanVarlenStorage::with_metadata_capacity(values.len());
        let ghost stored = stored_bytes(values@);
        assert(stored.take(0) =~= german@);
        let empty: Vec<u8> = Vec::new();
        let mut i: usize = 0;
        while i < values.len()
            invariant
                i <= values.len(),
                german.wf(),
                german@.len() == i,
                stored == stored_bytes(values@),
                german@ == stored.take(i as int),
                german.spec_heap_len() == heap_bytes(german@),
                german.spec_heap_len() <= HEAP_LIMIT,
                validity.wf(),
                validity@.len() == values.len(),
                forall|j: int| 0 <= j < i ==> validity@[j] == values@[j].is_some(),
                forall|j: int| i <= j < values.len() ==> validity@[j],
                forall|j: int| 0 <= j < i && values@[j].is_some() ==> german@[j] == values@[j]->0@,
            decreases values.len() - i,
        {
            let ghost prior = german@;
            assert(empty@ =~= Seq::<u8>::empty());
            let pushed = match &values[i] {
                Some(v) => german.try_push(v.as_slice()),
                None => {
                    validity.set(i, false);
                    german.try_push(empty.as_slice())
                },
            };
            proof {
                assert(stored.take(i + 1) =~= prior.push(stored[i as int]));
                assert(stored.take(i + 1).drop_last() =~= prior);
                lemma_heap_bytes_grow(stored, i + 1);
            }
            match pushed {
                Ok(_) => {},
                Err(e) => {
                    return Err(e);
                },
            }
            i += 1;
        }
        assert(stored.take(values.len() as int) =~= stored);
        let data = ArrayData2::Binary(BinaryData::German(Arc::new(german)));
        Ok(Array::new_with_validity_and_array_data(datatype, validity, data))
    }

    /// The text array that holds `values`, every row valid. Fails with
    /// `OutOfBounds` when the values are too long to be stored together.
    pub fn from_strs(values: &Vec<&str>) -> (r: Result<Array, RayexecError>)
        ensures
            match r {
                Ok(a) => {
                    &&& a.wf()
                    &&& a.spec_datatype()@ == DataTypeView::Utf8
                    &&& !a.spec_is_dictionary()
                    &&& a.spec_logical_len() == values@.len()
                    &&& forall|i: int|
                        0 <= i < values@.len() ==> #[trigger] a.spec_logical_value(i) == Ok::<
                            ScalarValueView,
                            RayexecError,
                        >(ScalarValueView::Utf8(values@[i]@))
                    &&& heap_bytes(Seq::new(values@.len(), |i: int| encode_utf8(values@[i]@)))
                        <= HEAP_LIMIT
                },
                Err(e) => heap_bytes(Seq::new(values@.len(), |i: int| encode_utf8(values@[i]@)))
                    > HEAP_LIMIT && e is OutOfBounds,
            },
    {
        let mut owned: Vec<Option<Vec<u8>>> = Vec::new();
        let mut i: usize = 0;
        while i < values.len()
            invariant
                i <= values.len(),
                owned.len() == i,
                forall|j: int|
                    0 <= j < i ==> (#[trigger] owned@[j]).is_some() && owned@[j]->0@
                        == encode_utf8(values@[j]@),
            decreases values.len() - i,
        {
            owned.push(Some(vstd::slice::slice_to_vec(values[i].as_bytes())));
            i += 1;
        }
        assert(stored_bytes(owned@) =~= Seq::new(
            values@.len(),
            |i: int| encode_utf8(values@[i]@),
        ));
        match Array::from_byte_options(DataType::Utf8, &owned) {
            Ok(a) => {
                proof {
                    assert forall|i: int| 0 <= i < values@.len() implies #[trigger] a.spec_logical_value(
                        i,
                    ) == Ok::<ScalarValueView, RayexecError>(ScalarValueView::Utf8(values@[i]@)) by {
                        assert(owned@[i].is_some());
                        assert(a.spec_data()->Binary_0.spec_values()[i] == encode_utf8(
                            values@[i]@,
                        ));
                        vstd::utf8::encode_utf8_valid_utf8(values@[i]@);
                        vstd::utf8::encode_utf8_decode_utf8(values@[i]@);
                    }
                }
                Ok(a)
            },
            Err(e) => Err(e),
        }
    }

    /// The text array that holds the values of `values`, a row being null
    /// where the option is `None`. Fails with `OutOfBounds` when the values
    /// are too long to be stored together.
    pub fn from_option_strs(values: &Vec<Option<&str>>) -> (r: Result<Array, RayexecError>)
        ensures
            match r {
                Ok(a) => {
                    &&& a.wf()
                    &&& a.spec_datatype()@ == DataTypeView::Utf8
                    &&& !a.spec_is_dictionary()
                    &&& a.spec_logical_len() == values@.len()
                    &&& forall|i: int|
                        0 <= i < values@.len() ==> #[trigger] a.spec_logical_value(i) == Ok::<
                            ScalarValueView,
                            RayexecError,
                        >(
                            match values@[i] {
                                Some(s) => ScalarValueView::Utf8(s@),
                                None => ScalarValueView::Null,
                            },
                        )
                    &&& heap_bytes(optional_text_bytes(values@)) <= HEAP_LIMIT
                },
                Err(e) => heap_bytes(optional_text_bytes(values@)) > HEAP_LIMIT && e is OutOfBounds,
            },
    {
        let mut owned: Vec<Option<Vec<u8>>> = Vec::new();
        let mut i: usize = 0;
        while i < values.len()
            invariant
                i <= values.len(),
                owned.len() == i,
                forall|j: int|
                    0 <= j < i ==> (#[trigger] owned@[j]).is_some() == values@[j].is_some(),
                forall|j: int|
                    0 <= j < i && values@[j].is_some() ==> (#[trigger] owned@[j])->0@
                        == encode_utf8(values@[j]->0@),
            decreases values.len() - i,
        {
            match values[i] {
                Some(s) => {
                    owned.push(Some(vstd::slice::slice_to_vec(s.as_bytes())));
                },
                None => {
                    owned.push(None);
                },
            }
            i += 1;
        }
        assert(stored_bytes(owned@) =~= optional_text_bytes(values@));
        match Array::from_byte_options(DataType::Utf8, &owned) {
            Ok(a) => {
                proof {
                    assert forall|i: int| 0 <= i < values@.len() implies #[trigger] a.spec_logical_value(
                        i,
                    ) == Ok::<ScalarValueView, RayexecError>(
                        match values@[i] {
                            Some(s) => ScalarValueView::Utf8(s@),
                            None => ScalarValueView::Null,
                        },
                    ) by {
                        assert(owned@[i].is_some() == values@[i].is_some());
                        if values@[i].is_some() {
                            let s = values@[i]->0;
                            assert(a.spec_data()->Binary_0.spec_values()[i] == encode_utf8(s@));
                            vstd::utf8::encode_utf8_valid_utf8(s@);
                            vstd::utf8::encode_utf8_decode_utf8(s@);
                        }
                    }
                }
                Ok(a)
            },
            Err(e) => Err(e),
        }
    }

    /// The array of byte strings `values`, every row valid. Fails with
    /// `OutOfBounds` when the values are too long to be stored together.
    pub fn from_binaries(values: &Vec<Vec<u8>>) -> (r: Result<Array, RayexecError>)
        ensures
            match r {
                Ok(a) => {
                    &&& a.wf()
                    &&& a.spec_datatype()@ == DataTypeView::Binary
                    &&& !a.spec_is_dictionary()
                    &&& a.spec_logical_len() == values@.len()
                    &&& forall|i: int|
                        0 <= i < values@.len() ==> #[trigger] a.spec_logical_value(i) == Ok::<
                            ScalarValueView,
                            RayexecError,
                        >(ScalarValueView::Binary(values@[i]@))
                    &&& heap_bytes(Seq::new(values@.len(), |i: int| values@[i]@)) <= HEAP_LIMIT
                },
                Err(e) => heap_bytes(Seq::new(values@.len(), |i: int| values@[i]@)) > HEAP_LIMIT
                    && e is OutOfBounds,
            },
    {
        let mut owned: Vec<Option<Vec<u8>>> = Vec::new();
        let mut i: usize = 0;
        while i < values.len()
            invariant
                i <= values.len(),
                owned.len() == i,
                forall|j: int|
                    0 <= j < i ==> (#[trigger] owned@[j]).is_some() && owned@[j]->0@
                        == values@[j]@,
            decreases values.len() - i,
        {
            owned.push(Some(vstd::slice::slice_to_vec(values[i].as_slice())));
            i += 1;
        }
        assert(stored_bytes(owned@) =~= Seq::new(values@.len(), |i: int| values@[i]@));
        match Array::from_byte_options(DataType::Binary, &owned) {
            Ok(a) => {
                proof {
                    assert forall|i: int| 0 <= i < values@.len() implies #[trigger] a.spec_logical_value(
                        i,
                    ) == Ok::<ScalarValueView, RayexecError>(
                        ScalarValueView::Binary(values@[i]@),
                    ) by {
                        assert(owned@[i].is_some());
                        assert(a.spec_data()->Binary_0.spec_values()[i] == values@[i]@);
                    }
                }
                Ok(a)
            },
            Err(e) => Err(e),
        }
    }
}

impl Array {
    /// The array of `len` logical rows that all read the one physical row
    /// of `data`, which is valid.
    fn broadcast(datatype: DataType, data: ArrayData2, len: usize) -> (r: Array)
        requires
            data.spec_len() == 1,
        ensures
            r.wf(),
            r.spec_datatype() == datatype,
            r.spec_data() == data,
            r.spec_is_dictionary(),
            r.spec_logical_len() == len,
            r.spec_selection() == Seq::new(len as nat, |i: int| 0usize),
            forall|i: int| 0 <= i < len ==> r.spec_is_valid(i),
            forall|i: int|
                0 <= i < len ==> #[trigger] r.spec_logical_value(i) == r.spec_physical_scalar(0),
    {
        let mut r = Array::new_with_array_data(datatype, data);
        r.put_selection(SelectionVector::repeated(len, 0));
        r
    }
}

impl ScalarValue {
    /// The array of `n` rows that all hold this value: one physical row,
    /// read by every logical row through a repeated selection.
    ///
    /// List and struct values are not broadcast yet (`NotImplemented`). A
    /// text or byte string too long for the byte heap gives `OutOfBounds`.
    pub fn as_array(&self, n: usize) -> (r: Result<Array, RayexecError>)
        ensures
            match r {
                Ok(a) => {
                    &&& a.wf()
                    &&& !(self@ is List) && !(self@ is Struct)
                    &&& self@ matches ScalarValueView::Utf8(text) ==> encode_utf8(text).len()
                        <= HEAP_LIMIT
                    &&& self@ matches ScalarValueView::Binary(bytes) ==> bytes.len() <= HEAP_LIMIT
                    &&& a.spec_datatype()@ == self@.datatype()
                    &&& a.spec_logical_len() == n
                    &&& a.spec_data().spec_len() == 1
                    &&& a.spec_is_dictionary()
                    &&& a.spec_selection() == Seq::new(n as nat, |i: int| 0usize)
                    &&& forall|i: int|
                        0 <= i < n ==> #[trigger] a.spec_logical_value(i) == Ok::<
                            ScalarValueView,
                            RayexecError,
                        >(self@)
                },
                Err(e) => {
                    ||| (self@ is List || self@ is Struct) && e == RayexecError::NotImplemented
                    ||| self@ matches ScalarValueView::Utf8(text) && encode_utf8(text).len()
                        > HEAP_LIMIT && e == (RayexecError::OutOfBounds {
                        index: encode_utf8(text).len() as usize,
                        len: 0,
                    })
                    ||| self@ matches ScalarValueView::Binary(bytes) && bytes.len() > HEAP_LIMIT
                        && e == (RayexecError::OutOfBounds {
                        index: bytes.len() as usize,
                        len: 0,
                    })
                },
            },
    {
        let (datatype, data) = match self {
            ScalarValue::Null => {
                return Ok(Array::new_untyped_null_array(n));
            },
            ScalarValue::Boolean(v) => (DataType::Boolean, PhysicalBool::store(one(*v))),
            ScalarValue::Float16(v) => (DataType::Float16, PhysicalF16::store(one(*v))),
            ScalarValue::Float32(v) => (DataType::Float32, PhysicalF32::store(one(*v))),
            ScalarValue::Float64(v) => (DataType::Float64, PhysicalF64::store(one(*v))),
            ScalarValue::Int8(v) => (DataType::Int8, PhysicalI8::store(one(*v))),
            ScalarValue::Int16(v) => (DataType::Int16, PhysicalI16::store(one(*v))),
            ScalarValue::Int32(v) => (DataType::Int32, PhysicalI32::store(one(*v))),
            ScalarValue::Int64(v) => (DataType::Int64, PhysicalI64::store(one(*v))),
            ScalarValue::Int128(v) => (DataType::Int128, PhysicalI128::store(one(*v))),
            ScalarValue::UInt8(v) => (DataType::UInt8, PhysicalU8::store(one(*v))),
            ScalarValue::UInt16(v) => (DataType::UInt16, PhysicalU16::store(one(*v))),
            ScalarValue::UInt32(v) => (DataType::UInt32, PhysicalU32::store(one(*v))),
            ScalarValue::UInt64(v) => (DataType::UInt64, PhysicalU64::store(one(*v))),
            ScalarValue::UInt128(v) => (DataType::UInt128, PhysicalU128::store(one(*v))),
            ScalarValue::Decimal64(v) => (
                DataType::Decimal64(DecimalTypeMeta { precision: v.precision, scale: v.scale }),
                PhysicalI64::store(one(v.value)),
            ),
            ScalarValue::Decimal128(v) => (
                DataType::Decimal128(DecimalTypeMeta { precision: v.precision, scale: v.scale }),
                PhysicalI128::store(one(v.value)),
            ),
            ScalarValue::Date32(v) => (DataType::Date32, PhysicalI32::store(one(*v))),
            ScalarValue::Date64(v) => (DataType::Date64, PhysicalI64::store(one(*v))),
            ScalarValue::Timestamp(v) => (
                DataType::Timestamp(TimestampTypeMeta { unit: v.unit }),
                PhysicalI64::store(one(v.value)),
            ),
            ScalarValue::Interval(v) => (DataType::Interval, PhysicalInterval::store(one(*v))),
            ScalarValue::Utf8(v) => {
                let mut german = GermanVarlenStorage::with_metadata_capacity(1);
                match german.try_push(v.as_str().as_bytes()) {
                    Ok(_) => {},
                    Err(e) => {
                        return Err(e);
                    },
                }
                proof {
                    vstd::utf8::encode_utf8_valid_utf8(v@);
                    vstd::utf8::encode_utf8_decode_utf8(v@);
                }
                (DataType::Utf8, ArrayData2::Binary(BinaryData::German(Arc::new(german))))
            },
            ScalarValue::Binary(v) => {
                let mut german = GermanVarlenStorage::with_metadata_capacity(1);
                match german.try_push(v.as_slice()) {
                    Ok(_) => {},
                    Err(e) => {
                        return Err(e);
                    },
                }
                (DataType::Binary, ArrayData2::Binary(BinaryData::German(Arc::new(german))))
            },
            ScalarValue::Struct(_) | ScalarValue::List(_) => {
                return Err(RayexecError::NotImplemented);
            },
        };
        let r = Array::broadcast(datatype, data, n);
        assert(r.spec_physical_scalar(0) == Ok::<ScalarValueView, RayexecError>(self@));
        Ok(r)
    }
}

/// The UTF-8 bytes that are stored for `values`: none for a row that is
/// null.
pub open spec fn optional_text_bytes(values: Seq<Option<&str>>) -> Seq<Seq<u8>> {
    Seq::new(
        values.len(),
        |i: int|
            match values[i] {
                Some(s) => encode_utf8(s@),
                None => Seq::empty(),
            },
    )
}

/// The byte strings that are stored for `values`: the empty one for a row
/// that is null.
pub open spec fn stored_bytes(values: Seq<Option<Vec<u8>>>) -> Seq<Seq<u8>> {
    Seq::new(
        values.len(),
        |i: int|
            match values[i] {
                Some(v) => v@,
                None => Seq::empty(),
            },
    )
}

/// The vector that holds `value` alone.
pub fn one<T>(value: T) -> (r: Vec<T>)
    ensures
        r@ == seq![value],
{
    let mut out: Vec<T> = Vec::new();
    out.push(value);
    out
}

impl Clone for Array {
    /// An array that reads the same values from the same buffers: the data
    /// is shared, the masks and the index sequence are copied.
    fn clone(&self) -> (r: Array)
        ensures
            r.wf(),
            r.spec_datatype()@ == self.spec_datatype()@,
            r.spec_data() == self.spec_data(),
            r.spec_validity() == self.spec_validity(),
            r.spec_is_dictionary() == self.spec_is_dictionary(),
            self.spec_is_dictionary() ==> r.spec_selection() == self.spec_selection()
                && r.spec_source_validity() == self.spec_source_validity(),
            r.spec_logical_values() == self.spec_logical_values(),
    {
        proof {
            use_type_invariant(self);
        }
        let dictionary = match &self.dictionary {
            Some(d) => Some(
                DictionaryBuffer {
                    indices: d.indices.clone(),
                    validity: d.validity.clone(),
                },
            ),
            None => None,
        };
        let r = Array {
            datatype: self.datatype.clone(),
            validity: self.validity.clone(),
            dictionary,
            data: self.data.share(),
        };
        proof {
            assert forall|i: int| 0 <= i < self.spec_logical_len() implies r.spec_logical_value(i)
                == self.spec_logical_value(i) by {
                lemma_physical_scalar_by_view(r, *self, r.spec_physical_index(i));
            }
            assert(r.spec_logical_values() =~= self.spec_logical_values());
        }
        r
    }
}

/// Once reading the first `k` rows of a list fails, reading more of them
/// fails with the same error.
pub proof fn lemma_list_values_error(child: Array, start: int, k: nat, count: nat)
    requires
        k <= count,
        spec_list_values(child, start, k) is Err,
    ensures
        spec_list_values(child, start, count) == spec_list_values(child, start, k),
    decreases count,
{
    if k < count {
        lemma_list_values_error(child, start, k, (count - 1) as nat);
    }
}

/// In every array the validity mask has one bit per row of the primary
/// buffer, and the logical length is the length of the selection when the
/// array is dictionary-encoded, the number of physical rows when it is not.
pub proof fn lemma_array_lengths(a: Array)
    requires
        a.wf(),
    ensures
        a.spec_validity().len() == a.spec_capacity(),
        a.spec_is_dictionary() ==> a.spec_logical_len() == a.spec_selection().len(),
        !a.spec_is_dictionary() ==> a.spec_logical_len() == a.spec_data().spec_len(),
{
}

/// In every dictionary-encoded array each index of the primary buffer is a
/// row of the source, and the source validity has one bit per source row.
pub proof fn lemma_dictionary_in_bounds(a: Array)
    requires
        a.wf(),
        a.spec_is_dictionary(),
    ensures
        in_bounds(a.spec_selection(), a.spec_data().spec_len()),
        a.spec_source_validity().len() == a.spec_data().spec_len(),
{
}

} // verus!
