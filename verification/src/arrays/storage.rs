//! Physical storage of column values.
//!
//! Fixed-width values live in a contiguous buffer. Variable-length values
//! live in one of three interchangeable layouts: offsets of 32 bits, offsets
//! of 64 bits, or per-row descriptors that hold short values inline and
//! point into a byte heap for long ones.

use vstd::prelude::*;
use vstd::slice::slice_subrange;

use crate::arrays::bitmap::Bitmap;
use crate::error::RayexecError;

verus! {

/// Whether two byte strings are equal.
pub fn bytes_eq(a: &[u8], b: &[u8]) -> (r: bool)
    ensures
        r == (a@ == b@),
{
    if a.len() != b.len() {
        return false;
    }
    let mut i: usize = 0;
    while i < a.len()
        invariant
            a@.len() == b@.len(),
            i <= a@.len(),
            forall|j: int| 0 <= j < i ==> a@[j] == b@[j],
        decreases a@.len() - i,
    {
        if a[i] != b[i] {
            return false;
        }
        i += 1;
    }
    assert(a@ =~= b@);
    true
}

/// Storage of a column that holds nothing but nulls: only the number of
/// rows is kept.
#[derive(Debug, Clone, Copy, PartialEq, Eq, Structural)]
pub struct UntypedNullStorage(pub usize);

impl UntypedNullStorage {
    /// The number of rows.
    pub fn len(&self) -> (n: usize)
        ensures
            n == self.0,
    {
        self.0
    }
}

/// Storage of booleans, one bit each.
#[derive(Debug, PartialEq, Eq)]
pub struct BooleanStorage(pub Bitmap);

impl View for BooleanStorage {
    type V = Seq<bool>;

    open spec fn view(&self) -> Seq<bool> {
        self.0@
    }
}

impl BooleanStorage {
    /// The number of rows.
    pub fn len(&self) -> (n: usize)
        ensures
            n == self@.len(),
    {
        self.0.len()
    }

    /// The value of row `idx`.
    pub fn value(&self, idx: usize) -> (b: bool)
        requires
            idx < self@.len(),
        ensures
            b == self@[idx as int],
    {
        self.0.value(idx)
    }
}

/// A contiguous buffer of fixed-width values. Nulls are not encoded here.
#[derive(Debug, PartialEq, Eq)]
pub struct PrimitiveStorage<T> {
    values: Vec<T>,
}

impl<T> View for PrimitiveStorage<T> {
    type V = Seq<T>;

    closed spec fn view(&self) -> Seq<T> {
        self.values@
    }
}

impl<T> PrimitiveStorage<T> {
    /// The storage that holds `values`, in order.
    pub fn from_vec(values: Vec<T>) -> (r: PrimitiveStorage<T>)
        ensures
            r@ == values@,
    {
        PrimitiveStorage { values }
    }

    /// The number of rows.
    pub fn len(&self) -> (n: usize)
        ensures
            n == self@.len(),
    {
        self.values.len()
    }

    /// The rows as a slice.
    pub fn as_slice(&self) -> (s: &[T])
        ensures
            s@ == self@,
    {
        self.values.as_slice()
    }

    /// The value of row `idx`, or `None` when there is no such row.
    pub fn get(&self, idx: usize) -> (r: Option<&T>)
        ensures
            match r {
                Some(v) => idx < self@.len() && *v == self@[idx as int],
                None => idx >= self@.len(),
            },
    {
        if idx < self.values.len() {
            Some(&self.values[idx])
        } else {
            None
        }
    }

    /// Writes `value` to row `idx`, or fails with `OutOfBounds`, leaving
    /// the storage as it was.
    pub fn put(&mut self, idx: usize, value: T) -> (r: Result<(), RayexecError>)
        ensures
            match r {
                Ok(_) => idx < old(self)@.len() && final(self)@ == old(self)@.update(
                    idx as int,
                    value,
                ),
                Err(e) => idx >= old(self)@.len() && final(self)@ == old(self)@ && e
                    == (RayexecError::OutOfBounds { index: idx, len: old(self)@.len() as usize }),
            },
    {
        if idx >= self.values.len() {
            return Err(RayexecError::OutOfBounds { index: idx, len: self.values.len() });
        }
        self.values.set(idx, value);
        Ok(())
    }

    /// The rows as a vector, giving up the storage.
    pub fn into_vec(self) -> (r: Vec<T>)
        ensures
            r@ == self@,
    {
        self.values
    }

    /// The number of bytes that the rows take, or the largest `usize` when
    /// that number is above it.
    pub fn data_size_bytes(&self) -> (n: usize)
        ensures
            n == if self@.len() * vstd::layout::size_of::<T>() <= usize::MAX {
                (self@.len() * vstd::layout::size_of::<T>()) as usize
            } else {
                usize::MAX
            },
    {
        match self.values.len().checked_mul(core::mem::size_of::<T>()) {
            Some(n) => n,
            None => usize::MAX,
        }
    }
}

/// An integer type that byte offsets are stored in.
pub trait OffsetIndex: Copy {
    /// The offset as a mathematical integer.
    spec fn spec_int(self) -> int;

    /// The largest byte offset that the type holds.
    spec fn spec_limit() -> nat;

    /// The offset as a `usize`; the offset must not be negative and must fit.
    fn as_usize(self) -> (r: usize)
        requires
            0 <= self.spec_int() <= usize::MAX,
        ensures
            r == self.spec_int(),
    ;

    /// The offset that stands for `v`, or `None` when `v` is above the limit.
    fn from_usize(v: usize) -> (r: Option<Self>)
        ensures
            match r {
                Some(o) => v <= Self::spec_limit() && o.spec_int() == v,
                None => v > Self::spec_limit(),
            },
    ;
}

impl OffsetIndex for i32 {
    open spec fn spec_int(self) -> int {
        self as int
    }

    open spec fn spec_limit() -> nat {
        0x7fff_ffff
    }

    fn as_usize(self) -> (r: usize) {
        self as usize
    }

    fn from_usize(v: usize) -> (r: Option<i32>) {
        if v <= 0x7fff_ffff {
            Some(v as i32)
        } else {
            None
        }
    }
}

impl OffsetIndex for i64 {
    open spec fn spec_int(self) -> int {
        self as int
    }

    open spec fn spec_limit() -> nat {
        0x7fff_ffff_ffff_ffff
    }

    fn as_usize(self) -> (r: usize) {
        self as usize
    }

    fn from_usize(v: usize) -> (r: Option<i64>) {
        if v as u64 <= 0x7fff_ffff_ffff_ffff {
            Some(v as i64)
        } else {
            None
        }
    }
}

/// Whether `offsets` delimit consecutive values inside `data_len` bytes: they
/// start at zero, never decrease and end at `data_len`.
pub open spec fn offsets_delimit<O: OffsetIndex>(offsets: Seq<O>, data_len: nat) -> bool {
    &&& offsets.len() >= 1
    &&& offsets[0].spec_int() == 0
    &&& offsets.last().spec_int() == data_len
    &&& forall|i: int, j: int|
        0 <= i <= j < offsets.len() ==> (#[trigger] offsets[i]).spec_int() <= (
        #[trigger] offsets[j]).spec_int()
}

/// Variable-length values laid end to end in one byte buffer, row `i`
/// spanning the bytes from `offsets[i]` to `offsets[i + 1]`.
#[derive(Debug, PartialEq, Eq)]
pub struct ContiguousVarlenStorage<O: OffsetIndex> {
    offsets: Vec<O>,
    data: Vec<u8>,
}

impl<O: OffsetIndex> View for ContiguousVarlenStorage<O> {
    type V = Seq<Seq<u8>>;

    closed spec fn view(&self) -> Seq<Seq<u8>> {
        Seq::new(
            (self.offsets.len() - 1) as nat,
            |i: int|
                self.data@.subrange(self.offsets@[i].spec_int(), self.offsets@[i + 1].spec_int()),
        )
    }
}

impl<O: OffsetIndex> ContiguousVarlenStorage<O> {
    /// The representation invariant.
    #[verifier::type_invariant]
    pub closed spec fn wf(&self) -> bool {
        offsets_delimit(self.offsets@, self.data@.len())
    }

    /// The number of bytes of all values together.
    pub closed spec fn spec_data_len(&self) -> nat {
        self.data@.len()
    }

    /// Storage without rows.
    pub fn new() -> (r: ContiguousVarlenStorage<O>)
        ensures
            r.wf(),
            r@ == Seq::<Seq<u8>>::empty(),
            r.spec_data_len() == 0,
    {
        let zero = O::from_usize(0);
        let mut offsets: Vec<O> = Vec::new();
        match zero {
            Some(z) => {
                offsets.push(z);
            },
            None => {
                assert(false);
            },
        }
        let r = ContiguousVarlenStorage { offsets, data: Vec::new() };
        assert(r@ =~= Seq::<Seq<u8>>::empty());
        r
    }

    /// The number of rows.
    pub fn len(&self) -> (n: usize)
        ensures
            n == self@.len(),
    {
        proof {
            use_type_invariant(self);
        }
        self.offsets.len() - 1
    }

    /// The number of bytes of all values together, without the offsets.
    pub fn data_size_bytes(&self) -> (n: usize)
        ensures
            n == self.spec_data_len(),
    {
        self.data.len()
    }

    /// The value of row `idx`, or `None` when there is no such row.
    pub fn get(&self, idx: usize) -> (r: Option<&[u8]>)
        ensures
            match r {
                Some(v) => idx < self@.len() && v@ == self@[idx as int],
                None => idx >= self@.len(),
            },
    {
        proof {
            use_type_invariant(self);
        }
        if idx >= self.offsets.len() - 1 {
            return None;
        }
        assert(self.offsets@[0].spec_int() <= self.offsets@[idx as int].spec_int());
        assert(self.offsets@[idx as int].spec_int() <= self.offsets@[idx + 1].spec_int());
        assert(self.offsets@[idx + 1].spec_int() <= self.offsets@.last().spec_int());
        let data = self.data.as_slice();
        assert(self.offsets@[idx + 1].spec_int() <= data.len());
        let start = self.offsets[idx].as_usize();
        let end = self.offsets[idx + 1].as_usize();
        Some(slice_subrange(data, start, end))
    }

    /// Appends `value` as a new row. Fails with `OutOfBounds`, leaving the
    /// storage as it was, when the bytes of all values together would no
    /// longer fit the offset type or the address space.
    pub fn try_push(&mut self, value: &[u8]) -> (r: Result<(), RayexecError>)
        ensures
            final(self).wf(),
            match r {
                Ok(_) => {
                    &&& old(self).spec_data_len() + value@.len() <= O::spec_limit()
                    &&& old(self).spec_data_len() + value@.len() <= usize::MAX
                    &&& final(self)@ == old(self)@.push(value@)
                    &&& final(self).spec_data_len() == old(self).spec_data_len() + value@.len()
                },
                Err(e) => {
                    &&& old(self).spec_data_len() + value@.len() > O::spec_limit()
                        || old(self).spec_data_len() + value@.len() > usize::MAX
                    &&& final(self)@ == old(self)@
                    &&& final(self).spec_data_len() == old(self).spec_data_len()
                    &&& e == (RayexecError::OutOfBounds {
                        index: value@.len() as usize,
                        len: old(self).spec_data_len() as usize,
                    })
                },
            },
    {
        proof {
            use_type_invariant(&*self);
        }
        let ghost before = *self;
        let too_long = RayexecError::OutOfBounds { index: value.len(), len: self.data.len() };
        if value.len() > usize::MAX - self.data.len() {
            return Err(too_long);
        }
        let end = match O::from_usize(self.data.len() + value.len()) {
            Some(end) => end,
            None => {
                return Err(too_long);
            },
        };
        let mut taken = ContiguousVarlenStorage::<O>::new();
        core::mem::swap(self, &mut taken);
        let ContiguousVarlenStorage { offsets: mut offsets, data: mut data } = taken;
        data.extend_from_slice(value);
        offsets.push(end);
        proof {
            assert(data@ =~= before.data@ + value@);
            assert forall|i: int, j: int| 0 <= i <= j < offsets.len() implies (
            #[trigger] offsets[i]).spec_int() <= (#[trigger] offsets[j]).spec_int() by {
                if j < offsets.len() - 1 {
                    assert(offsets[i] == before.offsets[i]);
                    assert(offsets[j] == before.offsets[j]);
                } else if i < offsets.len() - 1 {
                    assert(offsets[i] == before.offsets[i]);
                    assert(before.offsets@[i].spec_int() <= before.offsets@.last().spec_int());
                }
            }
        }
        let r = ContiguousVarlenStorage { offsets, data };
        proof {
            assert(r@.len() == before@.len() + 1);
            assert forall|i: int| 0 <= i < r@.len() implies r@[i] == before@.push(value@)[i] by {
                if i < before@.len() {
                    assert(r.offsets[i] == before.offsets[i]);
                    assert(r.offsets[i + 1] == before.offsets[i + 1]);
                    assert(before.offsets@[i + 1].spec_int()
                        <= before.offsets@.last().spec_int());
                    assert(before.offsets@[i].spec_int() <= before.offsets@[i + 1].spec_int());
                    assert(before.offsets@[0].spec_int() <= before.offsets@[i].spec_int());
                    assert(r.data@.subrange(
                        r.offsets@[i].spec_int(),
                        r.offsets@[i + 1].spec_int(),
                    ) =~= before.data@.subrange(
                        before.offsets@[i].spec_int(),
                        before.offsets@[i + 1].spec_int(),
                    ));
                } else {
                    assert(r.offsets[i] == before.offsets@.last());
                    assert(r.data@.subrange(
                        r.offsets@[i].spec_int(),
                        r.offsets@[i + 1].spec_int(),
                    ) =~= value@);
                }
            }
            assert(r@ =~= before@.push(value@));
        }
        *self = r;
        Ok(())
    }
}

/// The longest value that a descriptor holds inline.
pub const INLINE_THRESHOLD: usize = 12;

/// The per-row descriptor of the inline-prefix layout.
///
/// A value of at most twelve bytes is held in the descriptor itself. A
/// longer one lies in the byte heap at `offset`; the descriptor repeats its
/// first four bytes so that most comparisons never follow the reference.
#[derive(Debug, Clone, Copy, PartialEq, Eq)]
pub enum StringViewMetadata {
    Small { len: u8, inline: [u8; 12] },
    Large { len: u32, prefix: [u8; 4], buffer_idx: u32, offset: u32 },
}

impl StringViewMetadata {
    /// The number of bytes of the value.
    pub open spec fn spec_len(self) -> nat {
        match self {
            StringViewMetadata::Small { len, .. } => len as nat,
            StringViewMetadata::Large { len, .. } => len as nat,
        }
    }

    /// Whether the descriptor is consistent with the byte heap `heap`.
    pub open spec fn consistent(self, heap: Seq<u8>) -> bool {
        match self {
            StringViewMetadata::Small { len, .. } => len <= 12,
            StringViewMetadata::Large { len, prefix, buffer_idx, offset } => {
                &&& len > 12
                &&& buffer_idx == 0
                &&& offset + len <= heap.len()
                &&& prefix@ == heap.subrange(offset as int, offset + 4)
            },
        }
    }

    /// The value that the descriptor stands for, given the byte heap.
    pub open spec fn value(self, heap: Seq<u8>) -> Seq<u8> {
        match self {
            StringViewMetadata::Small { len, inline } => inline@.subrange(0, len as int),
            StringViewMetadata::Large { len, offset, .. } => heap.subrange(
                offset as int,
                offset + len,
            ),
        }
    }

    /// The number of bytes of the value.
    pub fn len(&self) -> (n: usize)
        ensures
            n == self.spec_len(),
    {
        match self {
            StringViewMetadata::Small { len, .. } => *len as usize,
            StringViewMetadata::Large { len, .. } => *len as usize,
        }
    }
}

/// Variable-length values in the inline-prefix layout: one descriptor per
/// row, and one byte heap for the values too long to be held inline.
#[derive(Debug, PartialEq, Eq)]
pub struct GermanVarlenStorage {
    metadata: Vec<StringViewMetadata>,
    data: Vec<u8>,
}

impl View for GermanVarlenStorage {
    type V = Seq<Seq<u8>>;

    closed spec fn view(&self) -> Seq<Seq<u8>> {
        Seq::new(self.metadata@.len(), |i: int| self.metadata@[i].value(self.data@))
    }
}

/// The bytes that `values` take in the byte heap: those of the values too
/// long to be held inline.
pub open spec fn heap_bytes(values: Seq<Seq<u8>>) -> nat
    decreases values.len(),
{
    if values.len() == 0 {
        0
    } else {
        heap_bytes(values.drop_last()) + if values.last().len() > 12 {
            values.last().len()
        } else {
            0
        }
    }
}

/// The first values of a sequence take no more of the heap than all of
/// them.
pub proof fn lemma_heap_bytes_grow(values: Seq<Seq<u8>>, upto: int)
    requires
        0 <= upto <= values.len(),
    ensures
        heap_bytes(values.take(upto)) <= heap_bytes(values),
    decreases values.len() - upto,
{
    if upto < values.len() {
        lemma_heap_bytes_grow(values, upto + 1);
        assert(values.take(upto + 1).drop_last() =~= values.take(upto));
    } else {
        assert(values.take(upto) =~= values);
    }
}

/// The largest byte heap that a descriptor can point into.
pub const HEAP_LIMIT: usize = 0xffff_ffff;

impl GermanVarlenStorage {
    /// The representation invariant: every descriptor is consistent with
    /// the heap.
    #[verifier::type_invariant]
    pub closed spec fn wf(&self) -> bool {
        &&& forall|i: int|
            0 <= i < self.metadata@.len() ==> (#[trigger] self.metadata@[i]).consistent(self.data@)
        &&& self.data@.len() == heap_bytes(self@)
    }

    /// The number of bytes in the heap.
    pub closed spec fn spec_heap_len(&self) -> nat {
        self.data@.len()
    }

    /// Storage without rows, with room for `capacity` descriptors.
    pub fn with_metadata_capacity(capacity: usize) -> (r: GermanVarlenStorage)
        ensures
            r.wf(),
            r@ == Seq::<Seq<u8>>::empty(),
            r.spec_heap_len() == 0,
            r.spec_heap_len() == heap_bytes(r@),
    {
        let metadata: Vec<StringViewMetadata> = Vec::with_capacity(capacity);
        let data: Vec<u8> = Vec::new();
        assert(Seq::new(metadata@.len(), |i: int| metadata@[i].value(data@)) =~= Seq::<
            Seq<u8>,
        >::empty());
        let r = GermanVarlenStorage { metadata, data };
        r
    }

    /// The number of rows.
    pub fn len(&self) -> (n: usize)
        ensures
            n == self@.len(),
    {
        self.metadata.len()
    }

    /// The number of bytes held in the heap, without the descriptors: the
    /// bytes of the values too long to be held inline.
    pub fn data_size_bytes(&self) -> (n: usize)
        ensures
            n == self.spec_heap_len(),
            n == heap_bytes(self@),
    {
        proof {
            use_type_invariant(self);
        }
        self.data.len()
    }

    /// The value of row `idx`, or `None` when there is no such row.
    pub fn get(&self, idx: usize) -> (r: Option<&[u8]>)
        ensures
            match r {
                Some(v) => idx < self@.len() && v@ == self@[idx as int],
                None => idx >= self@.len(),
            },
    {
        proof {
            use_type_invariant(self);
        }
        if idx >= self.metadata.len() {
            return None;
        }
        assert(self.metadata@[idx as int].consistent(self.data@));
        match &self.metadata[idx] {
            StringViewMetadata::Small { len, inline } => {
                Some(slice_subrange(inline.as_slice(), 0, *len as usize))
            },
            StringViewMetadata::Large { len, offset, .. } => {
                let data = self.data.as_slice();
                assert(*offset + *len <= data.len());
                let start = *offset as usize;
                let end = start + *len as usize;
                Some(slice_subrange(data, start, end))
            },
        }
    }

    /// Whether the value of row `idx` is `bytes`. The length and the first
    /// bytes are compared in the descriptor; the heap is read only for a
    /// long value that agrees on both.
    pub fn value_eq(&self, idx: usize, bytes: &[u8]) -> (r: bool)
        requires
            idx < self@.len(),
        ensures
            r == (self@[idx as int] == bytes@),
    {
        proof {
            use_type_invariant(self);
        }
        assert(self.metadata@[idx as int].consistent(self.data@));
        match &self.metadata[idx] {
            StringViewMetadata::Small { len, inline } => {
                bytes_eq(slice_subrange(inline.as_slice(), 0, *len as usize), bytes)
            },
            StringViewMetadata::Large { len, prefix, offset, .. } => {
                if *len as usize != bytes.len() {
                    return false;
                }
                let data = self.data.as_slice();
                assert(*offset + *len <= data.len());
                let start = *offset as usize;
                let end = start + *len as usize;
                let head = slice_subrange(bytes, 0, 4);
                if !bytes_eq(prefix.as_slice(), head) {
                    proof {
                        let v = self@[idx as int];
                        if v == bytes@ {
                            assert(v.subrange(0, 4) =~= prefix@);
                        }
                    }
                    return false;
                }
                bytes_eq(slice_subrange(data, start, end), bytes)
            },
        }
    }

    /// Appends `value` as a new row. Fails with `OutOfBounds`, leaving the
    /// storage as it was, when `value` is longer than twelve bytes and the
    /// heap would grow beyond what a descriptor can address.
    pub fn try_push(&mut self, value: &[u8]) -> (r: Result<(), RayexecError>)
        ensures
            final(self).wf(),
            old(self).spec_heap_len() == heap_bytes(old(self)@),
            final(self).spec_heap_len() == heap_bytes(final(self)@),
            match r {
                Ok(_) => {
                    &&& value@.len() <= 12 || old(self).spec_heap_len() + value@.len()
                        <= HEAP_LIMIT
                    &&& final(self)@ == old(self)@.push(value@)
                    &&& final(self).spec_heap_len() == old(self).spec_heap_len() + if value@.len()
                        <= 12 {
                        0
                    } else {
                        value@.len()
                    }
                },
                Err(e) => {
                    &&& value@.len() > 12
                    &&& old(self).spec_heap_len() + value@.len() > HEAP_LIMIT
                    &&& final(self)@ == old(self)@
                    &&& final(self).spec_heap_len() == old(self).spec_heap_len()
                    &&& e == (RayexecError::OutOfBounds {
                        index: value@.len() as usize,
                        len: old(self).spec_heap_len() as usize,
                    })
                },
            },
    {
        proof {
            use_type_invariant(&*self);
        }
        let ghost before = *self;
        if value.len() <= INLINE_THRESHOLD {
            let mut inline: [u8; 12] = [0u8; 12];
            let mut i: usize = 0;
            while i < value.len()
                invariant
                    value@.len() <= 12,
                    i <= value@.len(),
                    forall|j: int| 0 <= j < i ==> inline@[j] == value@[j],
                decreases value@.len() - i,
            {
                inline.set(i, value[i]);
                i += 1;
            }
            let meta = StringViewMetadata::Small { len: value.len() as u8, inline };
            assert(meta.value(self.data@) =~= value@);
            let mut taken = GermanVarlenStorage::with_metadata_capacity(0);
            core::mem::swap(self, &mut taken);
            let GermanVarlenStorage { metadata: mut metadata, data } = taken;
            metadata.push(meta);
            proof {
                assert forall|i: int| 0 <= i < metadata@.len() implies (
                #[trigger] metadata@[i]).consistent(data@) by {
                    if i < before.metadata@.len() {
                        assert(metadata@[i] == before.metadata@[i]);
                    }
                }
                let view = Seq::new(metadata@.len(), |i: int| metadata@[i].value(data@));
                assert forall|i: int| 0 <= i < view.len() implies view[i] == before@.push(
                    value@,
                )[i] by {
                    if i < before@.len() {
                        assert(metadata@[i] == before.metadata@[i]);
                    }
                }
                assert(view =~= before@.push(value@));
                assert(view.drop_last() =~= before@);
            }
            let r = GermanVarlenStorage { metadata, data };
            *self = r;
            return Ok(());
        }
        if self.data.len() > HEAP_LIMIT || value.len() > HEAP_LIMIT - self.data.len() {
            return Err(RayexecError::OutOfBounds { index: value.len(), len: self.data.len() });
        }
        let offset: u32 = self.data.len() as u32;
        let mut prefix: [u8; 4] = [0u8; 4];
        let mut i: usize = 0;
        while i < 4
            invariant
                value@.len() > 12,
                i <= 4,
                forall|j: int| 0 <= j < i ==> prefix@[j] == value@[j],
            decreases 4 - i,
        {
            prefix.set(i, value[i]);
            i += 1;
        }
        let meta = StringViewMetadata::Large {
            len: value.len() as u32,
            prefix,
            buffer_idx: 0,
            offset,
        };
        let mut taken = GermanVarlenStorage::with_metadata_capacity(0);
        core::mem::swap(self, &mut taken);
        let GermanVarlenStorage { metadata: mut metadata, data: mut data } = taken;
        data.extend_from_slice(value);
        metadata.push(meta);
        proof {
            assert(data@ =~= before.data@ + value@);
            assert(data@.subrange(offset as int, offset + value@.len()) =~= value@);
            assert(prefix@ =~= data@.subrange(offset as int, offset + 4));
            assert forall|i: int| 0 <= i < metadata@.len() implies (
            #[trigger] metadata@[i]).consistent(data@) by {
                if i < before.metadata@.len() {
                    let m = before.metadata@[i];
                    assert(metadata@[i] == m);
                    assert(m.consistent(before.data@));
                    match m {
                        StringViewMetadata::Small { .. } => {},
                        StringViewMetadata::Large { len, prefix, buffer_idx, offset } => {
                            assert(data@.subrange(offset as int, offset + 4)
                                =~= before.data@.subrange(offset as int, offset + 4));
                        },
                    }
                }
            }
        }
        proof {
            let view = Seq::new(metadata@.len(), |i: int| metadata@[i].value(data@));
            assert forall|i: int| 0 <= i < view.len() implies view[i] == before@.push(value@)[i] by {
                if i < before@.len() {
                    let m = before.metadata@[i];
                    assert(metadata@[i] == m);
                    assert(m.consistent(before.data@));
                    match m {
                        StringViewMetadata::Small { .. } => {},
                        StringViewMetadata::Large { len, prefix, buffer_idx, offset } => {
                            assert(data@.subrange(offset as int, offset + len)
                                =~= before.data@.subrange(offset as int, offset + len));
                        },
                    }
                }
            }
            assert(view =~= before@.push(value@));
            assert(view.drop_last() =~= before@);
        }
        let r = GermanVarlenStorage { metadata, data };
        *self = r;
        Ok(())
    }
}

} // verus!
