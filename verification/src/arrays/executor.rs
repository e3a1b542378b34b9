//! Kernel drivers.
//!
//! A driver walks the logical rows of its inputs, resolves each row through
//! the selection, skips the rows that are null, reads the others through
//! the typed access of a physical type, and writes what the kernel returns
//! into a buffer sized before the walk. A kernel either produces the whole
//! output array or fails: the first error ends the walk.

use vstd::prelude::*;

use crate::arrays::array::{Array, ArrayData2};
use crate::arrays::datatype::DataType;
use crate::arrays::physical_type::{check_storage, PhysicalStorage, PhysicalType};
use crate::arrays::validity::Validity;
use crate::error::RayexecError;

verus! {

/// A buffer of fixed-width output values, sized when it is made.
#[derive(Debug)]
pub struct PrimitiveBuffer<T> {
    values: Vec<T>,
}

impl<T> View for PrimitiveBuffer<T> {
    type V = Seq<T>;

    closed spec fn view(&self) -> Seq<T> {
        self.values@
    }
}

impl<T: Copy> PrimitiveBuffer<T> {
    /// A buffer of `len` slots that all hold `fill`.
    pub fn with_len(len: usize, fill: T) -> (r: PrimitiveBuffer<T>)
        ensures
            r@ == Seq::new(len as nat, |i: int| fill),
    {
        PrimitiveBuffer { values: crate::arrays::array::filled(len, fill) }
    }

    /// The number of slots.
    pub fn len(&self) -> (n: usize)
        ensures
            n == self@.len(),
    {
        self.values.len()
    }

    /// Writes `val` to slot `idx`.
    pub fn put(&mut self, idx: usize, val: &T)
        requires
            idx < old(self)@.len(),
        ensures
            final(self)@ == old(self)@.update(idx as int, *val),
    {
        self.values.set(idx, *val);
    }

    /// The slots as a vector.
    pub fn into_vec(self) -> (r: Vec<T>)
        ensures
            r@ == self@,
    {
        self.values
    }
}

/// What a kernel driver builds its output from: the data type of the output
/// and the buffer that the kernel's values are written to.
#[derive(Debug)]
pub struct ArrayBuilder<T> {
    pub datatype: DataType,
    pub buffer: PrimitiveBuffer<T>,
}

/// The value that logical row `i` of `a` reads from storage of type `S`.
pub open spec fn cell<S: PhysicalStorage>(a: Array, i: int) -> S::Type {
    S::spec_values(&a.spec_data())[a.spec_physical_index(i)]
}

/// Driver of kernels with one input.
pub struct UnaryExecutor;

/// Driver of kernels with two inputs.
pub struct BinaryExecutor;

impl UnaryExecutor {
    /// Runs `op` on every valid row of `input` and collects the results in
    /// an array of the builder's data type. A null row gives a null row,
    /// without a call of `op`.
    ///
    /// Fails when `input` is not storage of type `S`, when the builder's
    /// buffer does not have one slot per row, or with the first error that
    /// `op` returns.
    #[verifier::loop_isolation(false)]
    pub fn execute<S, O, F>(input: &Array, builder: ArrayBuilder<O::Type>, op: F) -> (r: Result<
        Array,
        RayexecError,
    >) where S: PhysicalStorage, O: PhysicalStorage, F: Fn(S::Type) -> Result<O::Type, RayexecError>
        requires
            forall|v: S::Type| call_requires(op, (v,)),
        ensures
            match r {
                Ok(out) => {
                    &&& out.wf()
                    &&& input.spec_data().spec_physical_type() == S::spec_physical_type()
                    &&& builder.buffer@.len() == input.spec_logical_len()
                    &&& out.spec_datatype() == builder.datatype
                    &&& !out.spec_is_dictionary()
                    &&& out.spec_logical_len() == input.spec_logical_len()
                    &&& out.spec_data().spec_physical_type() == O::spec_physical_type()
                    &&& forall|i: int|
                        0 <= i < input.spec_logical_len() ==> out.spec_is_valid(i)
                            == input.spec_is_valid(i)
                    &&& forall|i: int|
                        0 <= i < input.spec_logical_len() && input.spec_is_valid(i)
                            ==> call_ensures(
                            op,
                            (cell::<S>(*input, i),),
                            Ok::<O::Type, RayexecError>(#[trigger] cell::<O>(out, i)),
                        )
                    &&& forall|i: int|
                        0 <= i < input.spec_logical_len() && !input.spec_is_valid(i) ==> (
                        #[trigger] cell::<O>(out, i)) == builder.buffer@[i]
                },
                Err(e) => {
                    ||| {
                        &&& input.spec_data().spec_physical_type() != S::spec_physical_type()
                        &&& e == (RayexecError::PhysicalTypeMismatch {
                            expected: S::spec_physical_type(),
                            got: input.spec_data().spec_physical_type(),
                        })
                    }
                    ||| {
                        &&& input.spec_data().spec_physical_type() == S::spec_physical_type()
                        &&& builder.buffer@.len() != input.spec_logical_len()
                        &&& e == (RayexecError::LengthMismatch {
                            left: input.spec_logical_len() as usize,
                            right: builder.buffer@.len() as usize,
                        })
                    }
                    ||| {
                        &&& input.spec_data().spec_physical_type() == S::spec_physical_type()
                        &&& builder.buffer@.len() == input.spec_logical_len()
                        &&& exists|i: int|
                            0 <= i < input.spec_logical_len() && input.spec_is_valid(i)
                                && call_ensures(
                                op,
                                (#[trigger] cell::<S>(*input, i),),
                                Err::<O::Type, RayexecError>(e),
                            )
                    }
                },
            },
    {
        let data = input.array_data();
        match check_storage::<S>(data) {
            Ok(_) => {},
            Err(e) => {
                return Err(e);
            },
        }
        let len = input.logical_len();
        let ArrayBuilder { datatype, buffer: mut buffer } = builder;
        let ghost filler = buffer@;
        if buffer.len() != len {
            return Err(RayexecError::LengthMismatch { left: len, right: buffer.len() });
        }
        let mut validity = Validity::new_all_valid(len);
        let mut i: usize = 0;
        while i < len
            invariant
                *data == input.spec_data(),
                data.spec_physical_type() == S::spec_physical_type(),
                len == input.spec_logical_len(),
                forall|v: S::Type| call_requires(op, (v,)),
                i <= len,
                buffer@.len() == len,
                filler.len() == len,
                validity.wf(),
                validity@.len() == len,
                forall|j: int| 0 <= j < i ==> validity@[j] == input.spec_is_valid(j),
                forall|j: int| i <= j < len ==> validity@[j],
                forall|j: int|
                    0 <= j < i && input.spec_is_valid(j) ==> call_ensures(
                        op,
                        (cell::<S>(*input, j),),
                        Ok::<O::Type, RayexecError>(#[trigger] buffer@[j]),
                    ),
                forall|j: int|
                    0 <= j < len && !(j < i && input.spec_is_valid(j)) ==> (#[trigger] buffer@[j])
                        == filler[j],
            decreases len - i,
        {
            match input.is_valid(i) {
                Some(true) => {
                    let row = input.physical_index(i);
                    let v = S::get(data, row);
                    match op(v) {
                        Ok(o) => {
                            buffer.put(i, &o);
                        },
                        Err(e) => {
                            assert(call_ensures(
                                op,
                                (cell::<S>(*input, i as int),),
                                Err::<O::Type, RayexecError>(e),
                            ));
                            return Err(e);
                        },
                    }
                },
                _ => {
                    validity.set(i, false);
                },
            }
            i += 1;
        }
        let values = buffer.into_vec();
        let ghost held = values@;
        let out = Array::new_with_validity_and_array_data(datatype, validity, O::store(values));
        proof {
            assert forall|j: int| 0 <= j < len implies cell::<O>(out, j) == held[j] by {}
        }
        Ok(out)
    }
}

/// The byte string that logical row `i` of `a` reads from variable-length
/// storage.
pub open spec fn binary_cell(a: Array, i: int) -> Seq<u8> {
    a.spec_data()->Binary_0.spec_values()[a.spec_physical_index(i)]
}

/// Whether `op`, called on a slice that holds `bytes`, can return `result`.
pub open spec fn binary_row_gives<T, F: Fn(&[u8]) -> Result<T, RayexecError>>(
    op: F,
    bytes: Seq<u8>,
    result: Result<T, RayexecError>,
) -> bool {
    exists|v: &[u8]| v@ == bytes && call_ensures(op, (v,), result)
}

impl UnaryExecutor {
    /// Runs `op` on the bytes of every valid row of a column of text or
    /// bytes and collects the results in an array of the builder's data
    /// type. A null row gives a null row, without a call of `op`.
    ///
    /// Fails when `input` is not variable-length storage, when the
    /// builder's buffer does not have one slot per row, or with the first
    /// error that `op` returns.
    #[verifier::loop_isolation(false)]
    pub fn execute_binary<O, F>(input: &Array, builder: ArrayBuilder<O::Type>, op: F) -> (r: Result<
        Array,
        RayexecError,
    >) where O: PhysicalStorage, F: Fn(&[u8]) -> Result<O::Type, RayexecError>
        requires
            forall|v: &[u8]| call_requires(op, (v,)),
        ensures
            match r {
                Ok(out) => {
                    &&& out.wf()
                    &&& input.spec_data() is Binary
                    &&& builder.buffer@.len() == input.spec_logical_len()
                    &&& out.spec_datatype() == builder.datatype
                    &&& !out.spec_is_dictionary()
                    &&& out.spec_logical_len() == input.spec_logical_len()
                    &&& out.spec_data().spec_physical_type() == O::spec_physical_type()
                    &&& forall|i: int|
                        0 <= i < input.spec_logical_len() ==> out.spec_is_valid(i)
                            == input.spec_is_valid(i)
                    &&& forall|i: int|
                        0 <= i < input.spec_logical_len() && input.spec_is_valid(i)
                            ==> binary_row_gives(
                            op,
                            binary_cell(*input, i),
                            Ok::<O::Type, RayexecError>(#[trigger] cell::<O>(out, i)),
                        )
                    &&& forall|i: int|
                        0 <= i < input.spec_logical_len() && !input.spec_is_valid(i) ==> (
                        #[trigger] cell::<O>(out, i)) == builder.buffer@[i]
                },
                Err(e) => {
                    ||| {
                        &&& !(input.spec_data() is Binary)
                        &&& e == (RayexecError::PhysicalTypeMismatch {
                            expected: PhysicalType::Binary,
                            got: input.spec_data().spec_physical_type(),
                        })
                    }
                    ||| {
                        &&& input.spec_data() is Binary
                        &&& builder.buffer@.len() != input.spec_logical_len()
                        &&& e == (RayexecError::LengthMismatch {
                            left: input.spec_logical_len() as usize,
                            right: builder.buffer@.len() as usize,
                        })
                    }
                    ||| {
                        &&& input.spec_data() is Binary
                        &&& builder.buffer@.len() == input.spec_logical_len()
                        &&& exists|i: int|
                            0 <= i < input.spec_logical_len() && input.spec_is_valid(i)
                                && binary_row_gives(
                                op,
                                #[trigger] binary_cell(*input, i),
                                Err::<O::Type, RayexecError>(e),
                            )
                    }
                },
            },
    {
        let data = match input.array_data() {
            ArrayData2::Binary(b) => b,
            other => {
                return Err(
                    RayexecError::PhysicalTypeMismatch {
                        expected: PhysicalType::Binary,
                        got: other.physical_type(),
                    },
                );
            },
        };
        let len = input.logical_len();
        let ArrayBuilder { datatype, buffer: mut buffer } = builder;
        let ghost filler = buffer@;
        if buffer.len() != len {
            return Err(RayexecError::LengthMismatch { left: len, right: buffer.len() });
        }
        let mut validity = Validity::new_all_valid(len);
        let mut i: usize = 0;
        while i < len
            invariant
                i <= len,
                buffer@.len() == len,
                validity.wf(),
                validity@.len() == len,
                forall|j: int| 0 <= j < i ==> validity@[j] == input.spec_is_valid(j),
                forall|j: int| i <= j < len ==> validity@[j],
                forall|j: int|
                    0 <= j < i && input.spec_is_valid(j) ==> binary_row_gives(
                        op,
                        binary_cell(*input, j),
                        Ok::<O::Type, RayexecError>(#[trigger] buffer@[j]),
                    ),
                forall|j: int|
                    0 <= j < len && !(j < i && input.spec_is_valid(j)) ==> (#[trigger] buffer@[j])
                        == filler[j],
            decreases len - i,
        {
            match input.is_valid(i) {
                Some(true) => {
                    let row = input.physical_index(i);
                    match data.get(row) {
                        Some(bytes) => {
                            match op(bytes) {
                                Ok(o) => {
                                    buffer.put(i, &o);
                                    assert(binary_row_gives(
                                        op,
                                        binary_cell(*input, i as int),
                                        Ok::<O::Type, RayexecError>(buffer@[i as int]),
                                    )) by {
                                        assert(bytes@ == binary_cell(*input, i as int)
                                            && call_ensures(
                                            op,
                                            (bytes,),
                                            Ok::<O::Type, RayexecError>(o),
                                        ));
                                    }
                                },
                                Err(e) => {
                                    assert(binary_row_gives(
                                        op,
                                        binary_cell(*input, i as int),
                                        Err::<O::Type, RayexecError>(e),
                                    )) by {
                                        assert(bytes@ == binary_cell(*input, i as int)
                                            && call_ensures(
                                            op,
                                            (bytes,),
                                            Err::<O::Type, RayexecError>(e),
                                        ));
                                    }
                                    return Err(e);
                                },
                            }
                        },
                        None => {
                            assert(false);
                        },
                    }
                },
                _ => {
                    validity.set(i, false);
                },
            }
            i += 1;
        }
        let values = buffer.into_vec();
        let ghost held = values@;
        let out = Array::new_with_validity_and_array_data(datatype, validity, O::store(values));
        proof {
            assert forall|j: int| 0 <= j < len implies cell::<O>(out, j) == held[j] by {}
        }
        Ok(out)
    }
}

impl BinaryExecutor {
    /// Runs `op` on every row that is valid in both inputs and collects the
    /// results in an array of the builder's data type. A row that is null
    /// in either input gives a null row, without a call of `op`.
    ///
    /// Fails when an input is not storage of its type, when the inputs do
    /// not have the same number of rows, when the builder's buffer does not
    /// have one slot per row, or with the first error that `op` returns.
    #[verifier::loop_isolation(false)]
    pub fn execute<S1, S2, O, F>(
        left: &Array,
        right: &Array,
        builder: ArrayBuilder<O::Type>,
        op: F,
    ) -> (r: Result<Array, RayexecError>) where
        S1: PhysicalStorage,
        S2: PhysicalStorage,
        O: PhysicalStorage,
        F: Fn(S1::Type, S2::Type) -> Result<O::Type, RayexecError>,

        requires
            forall|a: S1::Type, b: S2::Type| call_requires(op, (a, b)),
        ensures
            match r {
                Ok(out) => {
                    &&& out.wf()
                    &&& left.spec_data().spec_physical_type() == S1::spec_physical_type()
                    &&& right.spec_data().spec_physical_type() == S2::spec_physical_type()
                    &&& left.spec_logical_len() == right.spec_logical_len()
                    &&& builder.buffer@.len() == left.spec_logical_len()
                    &&& out.spec_datatype() == builder.datatype
                    &&& !out.spec_is_dictionary()
                    &&& out.spec_logical_len() == left.spec_logical_len()
                    &&& out.spec_data().spec_physical_type() == O::spec_physical_type()
                    &&& forall|i: int|
                        0 <= i < left.spec_logical_len() ==> out.spec_is_valid(i) == (
                        left.spec_is_valid(i) && right.spec_is_valid(i))
                    &&& forall|i: int|
                        0 <= i < left.spec_logical_len() && left.spec_is_valid(i)
                            && right.spec_is_valid(i) ==> call_ensures(
                            op,
                            (cell::<S1>(*left, i), cell::<S2>(*right, i)),
                            Ok::<O::Type, RayexecError>(#[trigger] cell::<O>(out, i)),
                        )
                    &&& forall|i: int|
                        0 <= i < left.spec_logical_len() && !(left.spec_is_valid(i)
                            && right.spec_is_valid(i)) ==> (#[trigger] cell::<O>(out, i))
                            == builder.buffer@[i]
                },
                Err(e) => {
                    ||| {
                        &&& left.spec_data().spec_physical_type() != S1::spec_physical_type()
                        &&& e == (RayexecError::PhysicalTypeMismatch {
                            expected: S1::spec_physical_type(),
                            got: left.spec_data().spec_physical_type(),
                        })
                    }
                    ||| {
                        &&& left.spec_data().spec_physical_type() == S1::spec_physical_type()
                        &&& right.spec_data().spec_physical_type() != S2::spec_physical_type()
                        &&& e == (RayexecError::PhysicalTypeMismatch {
                            expected: S2::spec_physical_type(),
                            got: right.spec_data().spec_physical_type(),
                        })
                    }
                    ||| {
                        &&& left.spec_data().spec_physical_type() == S1::spec_physical_type()
                        &&& right.spec_data().spec_physical_type() == S2::spec_physical_type()
                        &&& left.spec_logical_len() != right.spec_logical_len()
                        &&& e == (RayexecError::LengthMismatch {
                            left: left.spec_logical_len() as usize,
                            right: right.spec_logical_len() as usize,
                        })
                    }
                    ||| {
                        &&& left.spec_data().spec_physical_type() == S1::spec_physical_type()
                        &&& right.spec_data().spec_physical_type() == S2::spec_physical_type()
                        &&& left.spec_logical_len() == right.spec_logical_len()
                        &&& builder.buffer@.len() != left.spec_logical_len()
                        &&& e == (RayexecError::LengthMismatch {
                            left: left.spec_logical_len() as usize,
                            right: builder.buffer@.len() as usize,
                        })
                    }
                    ||| {
                        &&& left.spec_data().spec_physical_type() == S1::spec_physical_type()
                        &&& right.spec_data().spec_physical_type() == S2::spec_physical_type()
                        &&& left.spec_logical_len() == right.spec_logical_len()
                        &&& builder.buffer@.len() == left.spec_logical_len()
                        &&& exists|i: int|
                            0 <= i < left.spec_logical_len() && left.spec_is_valid(i)
                                && right.spec_is_valid(i) && call_ensures(
                                op,
                                (#[trigger] cell::<S1>(*left, i), cell::<S2>(*right, i)),
                                Err::<O::Type, RayexecError>(e),
                            )
                    }
                },
            },
    {
        let ldata = left.array_data();
        let rdata = right.array_data();
        match check_storage::<S1>(ldata) {
            Ok(_) => {},
            Err(e) => {
                return Err(e);
            },
        }
        match check_storage::<S2>(rdata) {
            Ok(_) => {},
            Err(e) => {
                return Err(e);
            },
        }
        let len = left.logical_len();
        if right.logical_len() != len {
            return Err(RayexecError::LengthMismatch { left: len, right: right.logical_len() });
        }
        let ArrayBuilder { datatype, buffer: mut buffer } = builder;
        let ghost filler = buffer@;
        if buffer.len() != len {
            return Err(RayexecError::LengthMismatch { left: len, right: buffer.len() });
        }
        let mut validity = Validity::new_all_valid(len);
        let mut i: usize = 0;
        while i < len
            invariant
                *ldata == left.spec_data(),
                *rdata == right.spec_data(),
                ldata.spec_physical_type() == S1::spec_physical_type(),
                rdata.spec_physical_type() == S2::spec_physical_type(),
                len == left.spec_logical_len(),
                len == right.spec_logical_len(),
                forall|a: S1::Type, b: S2::Type| call_requires(op, (a, b)),
                i <= len,
                buffer@.len() == len,
                filler.len() == len,
                validity.wf(),
                validity@.len() == len,
                forall|j: int|
                    0 <= j < i ==> validity@[j] == (left.spec_is_valid(j) && right.spec_is_valid(
                        j,
                    )),
                forall|j: int| i <= j < len ==> validity@[j],
                forall|j: int|
                    0 <= j < i && left.spec_is_valid(j) && right.spec_is_valid(j) ==> call_ensures(
                        op,
                        (cell::<S1>(*left, j), cell::<S2>(*right, j)),
                        Ok::<O::Type, RayexecError>(#[trigger] buffer@[j]),
                    ),
                forall|j: int|
                    0 <= j < len && !(j < i && left.spec_is_valid(j) && right.spec_is_valid(j))
                        ==> (#[trigger] buffer@[j]) == filler[j],
            decreases len - i,
        {
            match (left.is_valid(i), right.is_valid(i)) {
                (Some(true), Some(true)) => {
                    let a = S1::get(ldata, left.physical_index(i));
                    let b = S2::get(rdata, right.physical_index(i));
                    match op(a, b) {
                        Ok(o) => {
                            buffer.put(i, &o);
                        },
                        Err(e) => {
                            assert(call_ensures(
                                op,
                                (cell::<S1>(*left, i as int), cell::<S2>(*right, i as int)),
                                Err::<O::Type, RayexecError>(e),
                            ));
                            return Err(e);
                        },
                    }
                },
                _ => {
                    validity.set(i, false);
                },
            }
            i += 1;
        }
        let values = buffer.into_vec();
        let ghost held = values@;
        let out = Array::new_with_validity_and_array_data(datatype, validity, O::store(values));
        proof {
            assert forall|j: int| 0 <= j < len implies cell::<O>(out, j) == held[j] by {}
        }
        Ok(out)
    }
}

/// Folds the elements of two lists, pair by pair, into one value.
///
/// A reducer is made for the lengths of the two lists, is handed each pair
/// of elements in order, and is then asked for the result.
pub trait BinaryListReducer<T, O>: Sized {
    /// The reducer before any pair.
    spec fn spec_new(left_len: i32, right_len: i32) -> Self;

    /// The reducer after one more pair.
    spec fn spec_put(self, v1: T, v2: T) -> Self;

    /// The result.
    spec fn spec_finish(self) -> O;

    /// The reducer before any pair.
    fn new(left_len: i32, right_len: i32) -> (r: Self)
        ensures
            r == Self::spec_new(left_len, right_len),
    ;

    /// Takes one more pair.
    fn put_values(&mut self, v1: T, v2: T)
        ensures
            *final(self) == old(self).spec_put(v1, v2),
    ;

    /// The result.
    fn finish(self) -> (o: O)
        ensures
            o == self.spec_finish(),
    ;
}

/// The reducer `state` after the first `upto` pairs of `left` and `right`.
pub open spec fn fold_pairs<T, O, R: BinaryListReducer<T, O>>(
    state: R,
    left: Seq<T>,
    right: Seq<T>,
    upto: int,
) -> R
    decreases upto,
{
    if upto <= 0 {
        state
    } else {
        fold_pairs::<T, O, R>(state, left, right, upto - 1).spec_put(left[upto - 1], right[upto - 1])
    }
}

/// Where the elements of logical row `i` of the list column `a` lie.
pub open spec fn list_meta(a: Array, i: int) -> crate::arrays::array::ListItemMetadata {
    a.spec_data()->List_0.spec_metadata()[a.spec_physical_index(i)]
}

/// The child array of the list column `a`.
pub open spec fn list_child(a: Array) -> Array {
    a.spec_data()->List_0.spec_child()
}

/// The elements of logical row `i` of the list column `a`, read from a
/// child of storage `S`.
pub open spec fn list_elements<S: PhysicalStorage>(a: Array, i: int) -> Seq<S::Type> {
    let m = list_meta(a, i);
    S::spec_values(&list_child(a).spec_data()).subrange(m.offset as int, m.offset + m.len)
}

/// Whether some element of logical row `i` of the list column `a` is null.
pub open spec fn list_has_null(a: Array, i: int) -> bool {
    let m = list_meta(a, i);
    exists|p: int| m.offset <= p < m.offset + m.len && !#[trigger] list_child(a).spec_is_valid(p)
}

/// What reducing logical row `i` of two list columns gives: `LengthMismatch`
/// where the two lists differ in length, `NullListElement` where one of them
/// holds a null, and else the result of the reducer over the pairs.
pub open spec fn reduce_row<S: PhysicalStorage, O, R: BinaryListReducer<S::Type, O>>(
    left: Array,
    right: Array,
    i: int,
) -> Result<O, RayexecError> {
    let lm = list_meta(left, i);
    let rm = list_meta(right, i);
    if lm.len != rm.len {
        Err(RayexecError::LengthMismatch { left: lm.len as usize, right: rm.len as usize })
    } else if list_has_null(left, i) || list_has_null(right, i) {
        Err(RayexecError::NullListElement { row: i as usize })
    } else {
        Ok(
            fold_pairs::<S::Type, O, R>(
                R::spec_new(lm.len, rm.len),
                list_elements::<S>(left, i),
                list_elements::<S>(right, i),
                lm.len as int,
            ).spec_finish(),
        )
    }
}

/// Whether `a` is a list column whose child is storage of type `S`.
pub open spec fn is_list_of<S: PhysicalStorage>(a: Array) -> bool {
    a.spec_data() is List && list_child(a).spec_data().spec_physical_type()
        == S::spec_physical_type()
}

/// What reducing the lists of two columns owes.
///
/// On success both inputs are list columns over storage `S` of one length,
/// the output has the builder's data type and the rows of the inputs, is
/// null exactly where either input is null, and holds in every other row
/// what [`reduce_row`] gives. The failures are, in this order: an input that
/// is not such a list column (`PhysicalTypeMismatch`), inputs or a buffer of
/// different lengths (`LengthMismatch`), and the error of a row whose lists
/// differ in length or hold a null element.
pub open spec fn reduce_post<S: PhysicalStorage, O: PhysicalStorage, R: BinaryListReducer<S::Type, O::Type>>(
    left: Array,
    right: Array,
    slots: nat,
    datatype: DataType,
    r: Result<Array, RayexecError>,
) -> bool {
    match r {
        Ok(out) => {
            &&& out.wf()
            &&& is_list_of::<S>(left)
            &&& is_list_of::<S>(right)
            &&& left.spec_logical_len() == right.spec_logical_len()
            &&& slots == left.spec_logical_len()
            &&& out.spec_datatype() == datatype
            &&& !out.spec_is_dictionary()
            &&& out.spec_logical_len() == left.spec_logical_len()
            &&& out.spec_data().spec_physical_type() == O::spec_physical_type()
            &&& forall|i: int|
                0 <= i < left.spec_logical_len() ==> out.spec_is_valid(i) == (
                left.spec_is_valid(i) && right.spec_is_valid(i))
            &&& forall|i: int|
                0 <= i < left.spec_logical_len() && left.spec_is_valid(i)
                    && right.spec_is_valid(i) ==> reduce_row::<S, O::Type, R>(
                    left,
                    right,
                    i,
                ) == Ok::<O::Type, RayexecError>(#[trigger] cell::<O>(out, i))
        },
        Err(e) => {
            ||| !is_list_of::<S>(left) && e == (RayexecError::PhysicalTypeMismatch {
                expected: if left.spec_data() is List {
                    S::spec_physical_type()
                } else {
                    PhysicalType::List
                },
                got: if left.spec_data() is List {
                    list_child(left).spec_data().spec_physical_type()
                } else {
                    left.spec_data().spec_physical_type()
                },
            })
            ||| is_list_of::<S>(left) && !is_list_of::<S>(right) && e
                == (RayexecError::PhysicalTypeMismatch {
                expected: if right.spec_data() is List {
                    S::spec_physical_type()
                } else {
                    PhysicalType::List
                },
                got: if right.spec_data() is List {
                    list_child(right).spec_data().spec_physical_type()
                } else {
                    right.spec_data().spec_physical_type()
                },
            })
            ||| {
                &&& is_list_of::<S>(left) && is_list_of::<S>(right)
                &&& left.spec_logical_len() != right.spec_logical_len()
                &&& e == (RayexecError::LengthMismatch {
                    left: left.spec_logical_len() as usize,
                    right: right.spec_logical_len() as usize,
                })
            }
            ||| {
                &&& is_list_of::<S>(left) && is_list_of::<S>(right)
                &&& left.spec_logical_len() == right.spec_logical_len()
                &&& slots != left.spec_logical_len()
                &&& e == (RayexecError::LengthMismatch {
                    left: left.spec_logical_len() as usize,
                    right: slots as usize,
                })
            }
            ||| {
                &&& is_list_of::<S>(left) && is_list_of::<S>(right)
                &&& left.spec_logical_len() == right.spec_logical_len()
                &&& slots == left.spec_logical_len()
                &&& exists|i: int|
                    0 <= i < left.spec_logical_len() && left.spec_is_valid(i)
                        && right.spec_is_valid(i) && #[trigger] reduce_row::<S, O::Type, R>(
                        left,
                        right,
                        i,
                    ) == Err::<O::Type, RayexecError>(e)
            }
        },
    }
}

/// Driver of kernels that reduce the lists of two columns pair by pair.
pub struct ListExecutor;

impl ListExecutor {
    /// Reduces every row that is valid in both inputs with a reducer of
    /// kind `R` and collects the results in an array of the builder's data
    /// type. A row that is null in either input gives a null row.
    ///
    /// Fails when an input is not a list column over storage of type `S`
    /// (`PhysicalTypeMismatch`), when the inputs or the builder's buffer
    /// differ in length (`LengthMismatch`), and with the error of the first
    /// row whose lists differ in length or hold a null element.
    #[verifier::loop_isolation(false)]
    pub fn binary_reduce<S, O, R>(left: &Array, right: &Array, builder: ArrayBuilder<O::Type>) -> (r:
        Result<Array, RayexecError>) where
        S: PhysicalStorage,
        O: PhysicalStorage,
        R: BinaryListReducer<S::Type, O::Type>,

        ensures
            reduce_post::<S, O, R>(*left, *right, builder.buffer@.len(), builder.datatype, r),
    {
        let llist = match left.array_data() {
            ArrayData2::List(l) => l,
            other => {
                return Err(
                    RayexecError::PhysicalTypeMismatch {
                        expected: PhysicalType::List,
                        got: other.physical_type(),
                    },
                );
            },
        };
        let lchild = llist.child();
        match check_storage::<S>(lchild.array_data()) {
            Ok(_) => {},
            Err(e) => {
                return Err(e);
            },
        }
        let rlist = match right.array_data() {
            ArrayData2::List(l) => l,
            other => {
                return Err(
                    RayexecError::PhysicalTypeMismatch {
                        expected: PhysicalType::List,
                        got: other.physical_type(),
                    },
                );
            },
        };
        let rchild = rlist.child();
        match check_storage::<S>(rchild.array_data()) {
            Ok(_) => {},
            Err(e) => {
                return Err(e);
            },
        }
        let len = left.logical_len();
        if right.logical_len() != len {
            return Err(RayexecError::LengthMismatch { left: len, right: right.logical_len() });
        }
        let ArrayBuilder { datatype, buffer: mut buffer } = builder;
        if buffer.len() != len {
            return Err(RayexecError::LengthMismatch { left: len, right: buffer.len() });
        }
        let mut validity = Validity::new_all_valid(len);
        let mut i: usize = 0;
        while i < len
            invariant
                i <= len,
                buffer@.len() == len,
                validity.wf(),
                validity@.len() == len,
                forall|j: int|
                    0 <= j < i ==> validity@[j] == (left.spec_is_valid(j) && right.spec_is_valid(
                        j,
                    )),
                forall|j: int| i <= j < len ==> validity@[j],
                forall|j: int|
                    0 <= j < i && left.spec_is_valid(j) && right.spec_is_valid(j) ==> reduce_row::<
                        S,
                        O::Type,
                        R,
                    >(*left, *right, j) == Ok::<O::Type, RayexecError>(#[trigger] buffer@[j]),
            decreases len - i,
        {
            match (left.is_valid(i), right.is_valid(i)) {
                (Some(true), Some(true)) => {
                    let lm = llist.metadata_at(left.physical_index(i));
                    let rm = rlist.metadata_at(right.physical_index(i));
                    if lm.len != rm.len {
                        assert(reduce_row::<S, O::Type, R>(*left, *right, i as int) == Err::<
                            O::Type,
                            RayexecError,
                        >(
                            RayexecError::LengthMismatch {
                                left: lm.len as usize,
                                right: rm.len as usize,
                            },
                        ));
                        return Err(
                            RayexecError::LengthMismatch {
                                left: lm.len as usize,
                                right: rm.len as usize,
                            },
                        );
                    }
                    let count: usize = lm.len as usize;
                    let lstart: usize = lm.offset as usize;
                    let rstart: usize = rm.offset as usize;
                    let mut reducer = R::new(lm.len, rm.len);
                    let ghost lvals = list_elements::<S>(*left, i as int);
                    let ghost rvals = list_elements::<S>(*right, i as int);
                    proof {
                        S::lemma_values_len(&lchild.spec_data());
                        S::lemma_values_len(&rchild.spec_data());
                    }
                    let mut k: usize = 0;
                    while k < count
                        invariant
                            k <= count,
                            lstart + count <= lchild.spec_data().spec_len(),
                            rstart + count <= rchild.spec_data().spec_len(),
                            reducer == fold_pairs::<S::Type, O::Type, R>(
                                R::spec_new(lm.len, rm.len),
                                lvals,
                                rvals,
                                k as int,
                            ),
                            forall|p: int| lstart <= p < lstart + k ==> lchild.spec_is_valid(p),
                            forall|p: int| rstart <= p < rstart + k ==> rchild.spec_is_valid(p),
                        decreases count - k,
                    {
                        let lok = lchild.is_valid(lstart + k);
                        let rok = rchild.is_valid(rstart + k);
                        match (lok, rok) {
                            (Some(true), Some(true)) => {},
                            _ => {
                                assert(list_has_null(*left, i as int) || list_has_null(
                                    *right,
                                    i as int,
                                )) by {
                                    if !lchild.spec_is_valid(lstart + k) {
                                        assert(!list_child(*left).spec_is_valid(lstart + k));
                                    } else {
                                        assert(!list_child(*right).spec_is_valid(rstart + k));
                                    }
                                }
                                assert(reduce_row::<S, O::Type, R>(*left, *right, i as int)
                                    == Err::<O::Type, RayexecError>(
                                    RayexecError::NullListElement { row: i },
                                ));
                                return Err(RayexecError::NullListElement { row: i });
                            },
                        }
                        let a = S::get(lchild.array_data(), lstart + k);
                        let b = S::get(rchild.array_data(), rstart + k);
                        reducer.put_values(a, b);
                        k += 1;
                    }
                    let o = reducer.finish();
                    assert(!list_has_null(*left, i as int) && !list_has_null(*right, i as int));
                    buffer.put(i, &o);
                },
                _ => {
                    validity.set(i, false);
                },
            }
            i += 1;
        }
        let values = buffer.into_vec();
        let ghost held = values@;
        let out = Array::new_with_validity_and_array_data(datatype, validity, O::store(values));
        proof {
            assert forall|j: int| 0 <= j < len implies cell::<O>(out, j) == held[j] by {}
        }
        Ok(out)
    }
}

} // verus!
