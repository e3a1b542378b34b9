//! The arithmetic operators `+ - * / %`.
//!
//! Integers of every width pair with themselves. A date takes a count of
//! days added or subtracted; the count is truncated to 32 bits. An interval
//! is multiplied by an integer component by component. Decimals are added,
//! subtracted and multiplied on their unscaled integers, keeping the
//! precision and scale of the left operand; a decimal product that does not
//! fit gives zero. Integer overflow wraps around; a zero divisor is an
//! error.

use vstd::prelude::*;

use crate::arrays::array::{Array, ArrayData2};
use crate::arrays::datatype::{DataType, DataTypeId, DataTypeView};
use crate::arrays::executor::{cell, ArrayBuilder, BinaryExecutor, PrimitiveBuffer};
use crate::arrays::physical_type::{
    PhysicalI128,
    PhysicalI16,
    PhysicalI32,
    PhysicalI64,
    PhysicalI8,
    PhysicalInterval,
    PhysicalType,
    PhysicalU128,
    PhysicalU16,
    PhysicalU32,
    PhysicalU64,
    PhysicalU8,
};
use crate::arrays::scalar::Interval;
use crate::error::RayexecError;
use crate::functions::int_arith::{
    arith_i128,
    arith_i16,
    arith_i32,
    arith_i64,
    arith_i8,
    arith_u128,
    arith_u16,
    arith_u32,
    arith_u64,
    arith_u8,
    fits,
    int_arith,
    lemma_wrap_fits,
    spec_arith_i128,
    spec_arith_i16,
    spec_arith_i32,
    spec_arith_i64,
    spec_arith_i8,
    spec_arith_u128,
    spec_arith_u16,
    spec_arith_u32,
    spec_arith_u64,
    spec_arith_u8,
    wrap_to,
    ArithOp,
};
use crate::functions::{
    binary_signature,
    invalid_input_types_error,
    plan_check_num_args,
    signature_views,
    spec_invalid_input_types,
    Signature,
    SignatureView,
};

verus! {

/// What one physical row holds, for the storages that arithmetic reads.
pub enum Cell {
    Int(int),
    Interval(Interval),
    Other,
}

/// What physical row `idx` of `data` holds.
pub open spec fn cell_of(data: ArrayData2, idx: int) -> Cell {
    match data {
        ArrayData2::Int8(s) => Cell::Int(s@[idx] as int),
        ArrayData2::Int16(s) => Cell::Int(s@[idx] as int),
        ArrayData2::Int32(s) => Cell::Int(s@[idx] as int),
        ArrayData2::Int64(s) => Cell::Int(s@[idx] as int),
        ArrayData2::Int128(s) => Cell::Int(s@[idx] as int),
        ArrayData2::UInt8(s) => Cell::Int(s@[idx] as int),
        ArrayData2::UInt16(s) => Cell::Int(s@[idx] as int),
        ArrayData2::UInt32(s) => Cell::Int(s@[idx] as int),
        ArrayData2::UInt64(s) => Cell::Int(s@[idx] as int),
        ArrayData2::UInt128(s) => Cell::Int(s@[idx] as int),
        ArrayData2::Interval(s) => Cell::Interval(s@[idx]),
        _ => Cell::Other,
    }
}

/// How a pair of columns is computed on.
pub enum ArithKind {
    /// Integers of one physical type, wrapping on overflow.
    Int(PhysicalType),
    /// Unscaled decimals multiplied: zero where the product does not fit.
    DecimalMul(PhysicalType),
    /// A date and a count of days, the count truncated to 32 bits.
    DateInt,
    /// An interval multiplied by an integer, component by component.
    IntervalMul,
}

/// The result of `x op y` under `kind`, or `None` for a zero divisor.
pub open spec fn arith_cell(op: ArithOp, kind: ArithKind, x: Cell, y: Cell) -> Option<Cell> {
    match kind {
        ArithKind::Int(pt) => match int_arith(op, pt, x->Int_0, y->Int_0) {
            Some(v) => Some(Cell::Int(v)),
            None => None,
        },
        ArithKind::DecimalMul(pt) => Some(
            Cell::Int(
                if fits(pt, x->Int_0 * y->Int_0) {
                    x->Int_0 * y->Int_0
                } else {
                    0
                },
            ),
        ),
        ArithKind::DateInt => match int_arith(
            op,
            PhysicalType::Int32,
            x->Int_0,
            wrap_to(PhysicalType::Int32, y->Int_0),
        ) {
            Some(v) => Some(Cell::Int(v)),
            None => None,
        },
        ArithKind::IntervalMul => Some(Cell::Interval(spec_interval_mul(x->Interval_0, y->Int_0))),
    }
}

/// An interval multiplied by an integer: months and days by the integer
/// truncated to 32 bits, nanoseconds by the integer, each product wrapping.
pub open spec fn spec_interval_mul(a: Interval, b: int) -> Interval {
    let narrow = wrap_to(PhysicalType::Int32, b);
    Interval {
        months: wrap_to(PhysicalType::Int32, a.months * narrow) as i32,
        days: wrap_to(PhysicalType::Int32, a.days * narrow) as i32,
        nanos: wrap_to(PhysicalType::Int64, a.nanos * b) as i64,
    }
}

/// How `op` computes on columns `a` and `b`, decided by their data types
/// and storage; `None` where this library has no kernel for the pair.
pub open spec fn spec_kind(op: ArithOp, a: Array, b: Array) -> Option<ArithKind> {
    let pa = a.spec_data().spec_physical_type();
    let pb = b.spec_data().spec_physical_type();
    let da = a.spec_datatype()@;
    let db = b.spec_datatype()@;
    if da is Decimal64 || da is Decimal128 || db is Decimal64 || db is Decimal128 {
        if (da is Decimal64 && db is Decimal64 && pa == PhysicalType::Int64 && pb
            == PhysicalType::Int64) || (da is Decimal128 && db is Decimal128 && pa
            == PhysicalType::Int128 && pb == PhysicalType::Int128) {
            match op {
                ArithOp::Add | ArithOp::Sub => Some(ArithKind::Int(pa)),
                ArithOp::Mul => Some(ArithKind::DecimalMul(pa)),
                _ => None,
            }
        } else {
            None
        }
    } else if da is Date32 {
        if db is Int64 && pa == PhysicalType::Int32 && pb == PhysicalType::Int64 && (op
            == ArithOp::Add || op == ArithOp::Sub) {
            Some(ArithKind::DateInt)
        } else {
            None
        }
    } else if da is Interval {
        if db is Int64 && pa == PhysicalType::Interval && pb == PhysicalType::Int64 && op
            == ArithOp::Mul {
            Some(ArithKind::IntervalMul)
        } else {
            None
        }
    } else if pa == pb && pa.spec_is_integer() {
        Some(ArithKind::Int(pa))
    } else {
        None
    }
}

/// The result of `op` on logical row `i` of the columns `a` and `b`, or
/// `None` for a zero divisor.
pub open spec fn row_result(op: ArithOp, kind: ArithKind, a: Array, b: Array, i: int) -> Option<
    Cell,
> {
    arith_cell(
        op,
        kind,
        cell_of(a.spec_data(), a.spec_physical_index(i)),
        cell_of(b.spec_data(), b.spec_physical_index(i)),
    )
}

/// Whether logical row `i` is valid in both columns.
pub open spec fn both_valid(a: Array, b: Array, i: int) -> bool {
    0 <= i < a.spec_logical_len() && a.spec_is_valid(i) && b.spec_is_valid(i)
}

/// What a kernel of `kind` owes for columns `a` and `b`.
///
/// It succeeds exactly when the columns have the same number of rows and
/// no row that is valid in both has a zero divisor. The output then has the
/// rows of the inputs, is null exactly where either input is null, has the
/// storage of the left input, and holds in every other row the result of
/// the operator on the two cells. It fails with `LengthMismatch` when the
/// inputs differ in length, and else with `DivideByZero`.
pub open spec fn kernel_post(
    op: ArithOp,
    kind: ArithKind,
    a: Array,
    b: Array,
    datatype: DataTypeView,
    r: Result<Array, RayexecError>,
) -> bool {
    &&& r is Ok <==> a.spec_logical_len() == b.spec_logical_len() && forall|i: int|
        both_valid(a, b, i) ==> (#[trigger] row_result(op, kind, a, b, i)) is Some
    &&& match r {
        Ok(out) => {
            &&& out.wf()
            &&& out.spec_logical_len() == a.spec_logical_len()
            &&& out.spec_datatype()@ == datatype
            &&& !out.spec_is_dictionary()
            &&& out.spec_data().spec_physical_type() == a.spec_data().spec_physical_type()
            &&& forall|i: int|
                0 <= i < a.spec_logical_len() ==> out.spec_is_valid(i) == (a.spec_is_valid(i)
                    && b.spec_is_valid(i))
            &&& forall|i: int|
                both_valid(a, b, i) ==> row_result(op, kind, a, b, i) == Some(
                    #[trigger] cell_of(out.spec_data(), i),
                )
        },
        Err(e) => if a.spec_logical_len() != b.spec_logical_len() {
            e == (RayexecError::LengthMismatch {
                left: a.spec_logical_len() as usize,
                right: b.spec_logical_len() as usize,
            })
        } else {
            e == RayexecError::DivideByZero
        },
    }
}

/// Where every row that is valid in both inputs has its result in the
/// output, every such row has a result.
proof fn lemma_rows_some(op: ArithOp, kind: ArithKind, a: Array, b: Array, out: Array)
    requires
        forall|i: int|
            both_valid(a, b, i) ==> row_result(op, kind, a, b, i) == Some(
                #[trigger] cell_of(out.spec_data(), i),
            ),
    ensures
        forall|i: int| both_valid(a, b, i) ==> (#[trigger] row_result(op, kind, a, b, i)) is Some,
{
    assert forall|i: int| both_valid(a, b, i) implies (#[trigger] row_result(
        op,
        kind,
        a,
        b,
        i,
    )) is Some by {
        let c = cell_of(out.spec_data(), i);
    }
}

/// A row of the output of a kernel is null exactly where the row is null
/// in either input.
pub proof fn lemma_null_propagation(
    op: ArithOp,
    kind: ArithKind,
    a: Array,
    b: Array,
    datatype: DataTypeView,
    out: Array,
    i: int,
)
    requires
        kernel_post(op, kind, a, b, datatype, Ok(out)),
        0 <= i < a.spec_logical_len(),
    ensures
        !out.spec_is_valid(i) <==> (!a.spec_is_valid(i) || !b.spec_is_valid(i)),
{
}

/// What `execute` of an arithmetic function owes: `Arity` unless there are
/// two inputs, `NotImplemented` where this library has no kernel for the
/// pair, and else what the kernel owes.
pub open spec fn execute_post(
    op: ArithOp,
    datatype: DataTypeView,
    inputs: Seq<&Array>,
    r: Result<Array, RayexecError>,
) -> bool {
    if inputs.len() != 2 {
        r == Err::<Array, RayexecError>(
            RayexecError::Arity { expected: 2, got: inputs.len() as usize },
        )
    } else {
        match spec_kind(op, *inputs[0], *inputs[1]) {
            None => r == Err::<Array, RayexecError>(RayexecError::NotImplemented),
            Some(kind) => kernel_post(op, kind, *inputs[0], *inputs[1], datatype, r),
        }
    }
}

/// The 64-bit integer `b` truncated to 32 bits.
pub fn truncate_to_i32(b: i64) -> (r: i32)
    ensures
        r == wrap_to(PhysicalType::Int32, b as int),
{
    match b.checked_rem_euclid(0x1_0000_0000i64) {
        Some(m) => {
            if m > 0x7fff_ffffi64 {
                (m - 0x1_0000_0000i64) as i32
            } else {
                m as i32
            }
        },
        None => 0,
    }
}

/// An interval multiplied by an integer, component by component.
pub fn interval_mul(a: Interval, b: i64) -> (r: Interval)
    ensures
        r == spec_interval_mul(a, b as int),
{
    let narrow = truncate_to_i32(b);
    proof {
        lemma_wrap_fits(PhysicalType::Int32, a.months * narrow);
        lemma_wrap_fits(PhysicalType::Int32, a.days * narrow);
        lemma_wrap_fits(PhysicalType::Int64, a.nanos * b);
    }
    Interval {
        months: a.months.wrapping_mul(narrow),
        days: a.days.wrapping_mul(narrow),
        nanos: a.nanos.wrapping_mul(b),
    }
}

/// The product of two unscaled 64-bit decimals, or zero when it does not
/// fit.
pub fn decimal_mul_i64(x: i64, y: i64) -> (r: i64)
    ensures
        r == if fits(PhysicalType::Int64, x * y) {
            x * y
        } else {
            0
        },
{
    match x.checked_mul(y) {
        Some(v) => v,
        None => 0,
    }
}

/// The product of two unscaled 128-bit decimals, or zero when it does not
/// fit.
pub fn decimal_mul_i128(x: i128, y: i128) -> (r: i128)
    ensures
        r == if fits(PhysicalType::Int128, x * y) {
            x * y
        } else {
            0
        },
{
    match x.checked_mul(y) {
        Some(v) => v,
        None => 0,
    }
}

fn execute_i8(op: ArithOp, a: &Array, b: &Array, datatype: DataType) -> (r: Result<
    Array,
    RayexecError,
>)
    requires
        a.spec_data().spec_physical_type() == PhysicalType::Int8,
        b.spec_data().spec_physical_type() == PhysicalType::Int8,
    ensures
        kernel_post(op, ArithKind::Int(PhysicalType::Int8), *a, *b, datatype@, r),
{
    let builder = ArrayBuilder {
        datatype,
        buffer: PrimitiveBuffer::with_len(a.logical_len(), 0i8),
    };
    let kernel = |x: i8, y: i8| -> (o: Result<i8, RayexecError>)
        ensures
            o == spec_arith_i8(op, x, y),
            int_arith(op, PhysicalType::Int8, x as int, y as int) matches Some(v) ==> fits(
                PhysicalType::Int8,
                v,
            ),
        { arith_i8(op, x, y) };
    let r = BinaryExecutor::execute::<PhysicalI8, PhysicalI8, PhysicalI8, _>(a, b, builder, kernel);
    proof {
        if r is Ok {
            let out = r->Ok_0;
            assert forall|i: int| both_valid(*a, *b, i) implies row_result(
                op,
                ArithKind::Int(PhysicalType::Int8),
                *a,
                *b,
                i,
            ) == Some(#[trigger] cell_of(out.spec_data(), i)) by {
                let o = cell::<PhysicalI8>(out, i);
                assert(spec_arith_i8(op, cell::<PhysicalI8>(*a, i), cell::<PhysicalI8>(*b, i))
                    == Ok::<i8, RayexecError>(o));
            }
            lemma_rows_some(op, ArithKind::Int(PhysicalType::Int8), *a, *b, out);
        } else {
            let e = r->Err_0;
            if a.spec_logical_len() == b.spec_logical_len() {
                let i = choose|i: int|
                    0 <= i < a.spec_logical_len() && a.spec_is_valid(i) && b.spec_is_valid(i)
                        && spec_arith_i8(
                        op,
                        #[trigger] cell::<PhysicalI8>(*a, i),
                        cell::<PhysicalI8>(*b, i),
                    ) == Err::<i8, RayexecError>(e);
                assert(both_valid(*a, *b, i));
                assert(row_result(op, ArithKind::Int(PhysicalType::Int8), *a, *b, i) is None);
            }
        }
    }
    r
}

fn execute_i16(op: ArithOp, a: &Array, b: &Array, datatype: DataType) -> (r: Result<
    Array,
    RayexecError,
>)
    requires
        a.spec_data().spec_physical_type() == PhysicalType::Int16,
        b.spec_data().spec_physical_type() == PhysicalType::Int16,
    ensures
        kernel_post(op, ArithKind::Int(PhysicalType::Int16), *a, *b, datatype@, r),
{
    let builder = ArrayBuilder {
        datatype,
        buffer: PrimitiveBuffer::with_len(a.logical_len(), 0i16),
    };
    let kernel = |x: i16, y: i16| -> (o: Result<i16, RayexecError>)
        ensures
            o == spec_arith_i16(op, x, y),
            int_arith(op, PhysicalType::Int16, x as int, y as int) matches Some(v) ==> fits(
                PhysicalType::Int16,
                v,
            ),
        { arith_i16(op, x, y) };
    let r = BinaryExecutor::execute::<PhysicalI16, PhysicalI16, PhysicalI16, _>(a, b, builder, kernel);
    proof {
        if r is Ok {
            let out = r->Ok_0;
            assert forall|i: int| both_valid(*a, *b, i) implies row_result(
                op,
                ArithKind::Int(PhysicalType::Int16),
                *a,
                *b,
                i,
            ) == Some(#[trigger] cell_of(out.spec_data(), i)) by {
                let o = cell::<PhysicalI16>(out, i);
                assert(spec_arith_i16(op, cell::<PhysicalI16>(*a, i), cell::<PhysicalI16>(*b, i))
                    == Ok::<i16, RayexecError>(o));
            }
            lemma_rows_some(op, ArithKind::Int(PhysicalType::Int16), *a, *b, out);
        } else {
            let e = r->Err_0;
            if a.spec_logical_len() == b.spec_logical_len() {
                let i = choose|i: int|
                    0 <= i < a.spec_logical_len() && a.spec_is_valid(i) && b.spec_is_valid(i)
                        && spec_arith_i16(
                        op,
                        #[trigger] cell::<PhysicalI16>(*a, i),
                        cell::<PhysicalI16>(*b, i),
                    ) == Err::<i16, RayexecError>(e);
                assert(both_valid(*a, *b, i));
                assert(row_result(op, ArithKind::Int(PhysicalType::Int16), *a, *b, i) is None);
            }
        }
    }
    r
}

fn execute_i32(op: ArithOp, a: &Array, b: &Array, datatype: DataType) -> (r: Result<
    Array,
    RayexecError,
>)
    requires
        a.spec_data().spec_physical_type() == PhysicalType::Int32,
        b.spec_data().spec_physical_type() == PhysicalType::Int32,
    ensures
        kernel_post(op, ArithKind::Int(PhysicalType::Int32), *a, *b, datatype@, r),
{
    let builder = ArrayBuilder {
        datatype,
        buffer: PrimitiveBuffer::with_len(a.logical_len(), 0i32),
    };
    let kernel = |x: i32, y: i32| -> (o: Result<i32, RayexecError>)
        ensures
            o == spec_arith_i32(op, x, y),
            int_arith(op, PhysicalType::Int32, x as int, y as int) matches Some(v) ==> fits(
                PhysicalType::Int32,
                v,
            ),
        { arith_i32(op, x, y) };
    let r = BinaryExecutor::execute::<PhysicalI32, PhysicalI32, PhysicalI32, _>(a, b, builder, kernel);
    proof {
        if r is Ok {
            let out = r->Ok_0;
            assert forall|i: int| both_valid(*a, *b, i) implies row_result(
                op,
                ArithKind::Int(PhysicalType::Int32),
                *a,
                *b,
                i,
            ) == Some(#[trigger] cell_of(out.spec_data(), i)) by {
                let o = cell::<PhysicalI32>(out, i);
                assert(spec_arith_i32(op, cell::<PhysicalI32>(*a, i), cell::<PhysicalI32>(*b, i))
                    == Ok::<i32, RayexecError>(o));
            }
            lemma_rows_some(op, ArithKind::Int(PhysicalType::Int32), *a, *b, out);
        } else {
            let e = r->Err_0;
            if a.spec_logical_len() == b.spec_logical_len() {
                let i = choose|i: int|
                    0 <= i < a.spec_logical_len() && a.spec_is_valid(i) && b.spec_is_valid(i)
                        && spec_arith_i32(
                        op,
                        #[trigger] cell::<PhysicalI32>(*a, i),
                        cell::<PhysicalI32>(*b, i),
                    ) == Err::<i32, RayexecError>(e);
                assert(both_valid(*a, *b, i));
                assert(row_result(op, ArithKind::Int(PhysicalType::Int32), *a, *b, i) is None);
            }
        }
    }
    r
}

fn execute_i64(op: ArithOp, a: &Array, b: &Array, datatype: DataType) -> (r: Result<
    Array,
    RayexecError,
>)
    requires
        a.spec_data().spec_physical_type() == PhysicalType::Int64,
        b.spec_data().spec_physical_type() == PhysicalType::Int64,
    ensures
        kernel_post(op, ArithKind::Int(PhysicalType::Int64), *a, *b, datatype@, r),
{
    let builder = ArrayBuilder {
        datatype,
        buffer: PrimitiveBuffer::with_len(a.logical_len(), 0i64),
    };
    let kernel = |x: i64, y: i64| -> (o: Result<i64, RayexecError>)
        ensures
            o == spec_arith_i64(op, x, y),
            int_arith(op, PhysicalType::Int64, x as int, y as int) matches Some(v) ==> fits(
                PhysicalType::Int64,
                v,
            ),
        { arith_i64(op, x, y) };
    let r = BinaryExecutor::execute::<PhysicalI64, PhysicalI64, PhysicalI64, _>(a, b, builder, kernel);
    proof {
        if r is Ok {
            let out = r->Ok_0;
            assert forall|i: int| both_valid(*a, *b, i) implies row_result(
                op,
                ArithKind::Int(PhysicalType::Int64),
                *a,
                *b,
                i,
            ) == Some(#[trigger] cell_of(out.spec_data(), i)) by {
                let o = cell::<PhysicalI64>(out, i);
                assert(spec_arith_i64(op, cell::<PhysicalI64>(*a, i), cell::<PhysicalI64>(*b, i))
                    == Ok::<i64, RayexecError>(o));
            }
            lemma_rows_some(op, ArithKind::Int(PhysicalType::Int64), *a, *b, out);
        } else {
            let e = r->Err_0;
            if a.spec_logical_len() == b.spec_logical_len() {
                let i = choose|i: int|
                    0 <= i < a.spec_logical_len() && a.spec_is_valid(i) && b.spec_is_valid(i)
                        && spec_arith_i64(
                        op,
                        #[trigger] cell::<PhysicalI64>(*a, i),
                        cell::<PhysicalI64>(*b, i),
                    ) == Err::<i64, RayexecError>(e);
                assert(both_valid(*a, *b, i));
                assert(row_result(op, ArithKind::Int(PhysicalType::Int64), *a, *b, i) is None);
            }
        }
    }
    r
}

fn execute_i128(op: ArithOp, a: &Array, b: &Array, datatype: DataType) -> (r: Result<
    Array,
    RayexecError,
>)
    requires
        a.spec_data().spec_physical_type() == PhysicalType::Int128,
        b.spec_data().spec_physical_type() == PhysicalType::Int128,
    ensures
        kernel_post(op, ArithKind::Int(PhysicalType::Int128), *a, *b, datatype@, r),
{
    let builder = ArrayBuilder {
        datatype,
        buffer: PrimitiveBuffer::with_len(a.logical_len(), 0i128),
    };
    let kernel = |x: i128, y: i128| -> (o: Result<i128, RayexecError>)
        ensures
            o == spec_arith_i128(op, x, y),
            int_arith(op, PhysicalType::Int128, x as int, y as int) matches Some(v) ==> fits(
                PhysicalType::Int128,
                v,
            ),
        { arith_i128(op, x, y) };
    let r = BinaryExecutor::execute::<PhysicalI128, PhysicalI128, PhysicalI128, _>(a, b, builder, kernel);
    proof {
        if r is Ok {
            let out = r->Ok_0;
            assert forall|i: int| both_valid(*a, *b, i) implies row_result(
                op,
                ArithKind::Int(PhysicalType::Int128),
                *a,
                *b,
                i,
            ) == Some(#[trigger] cell_of(out.spec_data(), i)) by {
                let o = cell::<PhysicalI128>(out, i);
                assert(spec_arith_i128(op, cell::<PhysicalI128>(*a, i), cell::<PhysicalI128>(*b, i))
                    == Ok::<i128, RayexecError>(o));
            }
            lemma_rows_some(op, ArithKind::Int(PhysicalType::Int128), *a, *b, out);
        } else {
            let e = r->Err_0;
            if a.spec_logical_len() == b.spec_logical_len() {
                let i = choose|i: int|
                    0 <= i < a.spec_logical_len() && a.spec_is_valid(i) && b.spec_is_valid(i)
                        && spec_arith_i128(
                        op,
                        #[trigger] cell::<PhysicalI128>(*a, i),
                        cell::<PhysicalI128>(*b, i),
                    ) == Err::<i128, RayexecError>(e);
                assert(both_valid(*a, *b, i));
                assert(row_result(op, ArithKind::Int(PhysicalType::Int128), *a, *b, i) is None);
            }
        }
    }
    r
}

fn execute_u8(op: ArithOp, a: &Array, b: &Array, datatype: DataType) -> (r: Result<
    Array,
    RayexecError,
>)
    requires
        a.spec_data().spec_physical_type() == PhysicalType::UInt8,
        b.spec_data().spec_physical_type() == PhysicalType::UInt8,
    ensures
        kernel_post(op, ArithKind::Int(PhysicalType::UInt8), *a, *b, datatype@, r),
{
    let builder = ArrayBuilder {
        datatype,
        buffer: PrimitiveBuffer::with_len(a.logical_len(), 0u8),
    };
    let kernel = |x: u8, y: u8| -> (o: Result<u8, RayexecError>)
        ensures
            o == spec_arith_u8(op, x, y),
            int_arith(op, PhysicalType::UInt8, x as int, y as int) matches Some(v) ==> fits(
                PhysicalType::UInt8,
                v,
            ),
        { arith_u8(op, x, y) };
    let r = BinaryExecutor::execute::<PhysicalU8, PhysicalU8, PhysicalU8, _>(a, b, builder, kernel);
    proof {
        if r is Ok {
            let out = r->Ok_0;
            assert forall|i: int| both_valid(*a, *b, i) implies row_result(
                op,
                ArithKind::Int(PhysicalType::UInt8),
                *a,
                *b,
                i,
            ) == Some(#[trigger] cell_of(out.spec_data(), i)) by {
                let o = cell::<PhysicalU8>(out, i);
                assert(spec_arith_u8(op, cell::<PhysicalU8>(*a, i), cell::<PhysicalU8>(*b, i))
                    == Ok::<u8, RayexecError>(o));
            }
            lemma_rows_some(op, ArithKind::Int(PhysicalType::UInt8), *a, *b, out);
        } else {
            let e = r->Err_0;
            if a.spec_logical_len() == b.spec_logical_len() {
                let i = choose|i: int|
                    0 <= i < a.spec_logical_len() && a.spec_is_valid(i) && b.spec_is_valid(i)
                        && spec_arith_u8(
                        op,
                        #[trigger] cell::<PhysicalU8>(*a, i),
                        cell::<PhysicalU8>(*b, i),
                    ) == Err::<u8, RayexecError>(e);
                assert(both_valid(*a, *b, i));
                assert(row_result(op, ArithKind::Int(PhysicalType::UInt8), *a, *b, i) is None);
            }
        }
    }
    r
}

fn execute_u16(op: ArithOp, a: &Array, b: &Array, datatype: DataType) -> (r: Result<
    Array,
    RayexecError,
>)
    requires
        a.spec_data().spec_physical_type() == PhysicalType::UInt16,
        b.spec_data().spec_physical_type() == PhysicalType::UInt16,
    ensures
        kernel_post(op, ArithKind::Int(PhysicalType::UInt16), *a, *b, datatype@, r),
{
    let builder = ArrayBuilder {
        datatype,
        buffer: PrimitiveBuffer::with_len(a.logical_len(), 0u16),
    };
    let kernel = |x: u16, y: u16| -> (o: Result<u16, RayexecError>)
        ensures
            o == spec_arith_u16(op, x, y),
            int_arith(op, PhysicalType::UInt16, x as int, y as int) matches Some(v) ==> fits(
                PhysicalType::UInt16,
                v,
            ),
        { arith_u16(op, x, y) };
    let r = BinaryExecutor::execute::<PhysicalU16, PhysicalU16, PhysicalU16, _>(a, b, builder, kernel);
    proof {
        if r is Ok {
            let out = r->Ok_0;
            assert forall|i: int| both_valid(*a, *b, i) implies row_result(
                op,
                ArithKind::Int(PhysicalType::UInt16),
                *a,
                *b,
                i,
            ) == Some(#[trigger] cell_of(out.spec_data(), i)) by {
                let o = cell::<PhysicalU16>(out, i);
                assert(spec_arith_u16(op, cell::<PhysicalU16>(*a, i), cell::<PhysicalU16>(*b, i))
                    == Ok::<u16, RayexecError>(o));
            }
            lemma_rows_some(op, ArithKind::Int(PhysicalType::UInt16), *a, *b, out);
        } else {
            let e = r->Err_0;
            if a.spec_logical_len() == b.spec_logical_len() {
                let i = choose|i: int|
                    0 <= i < a.spec_logical_len() && a.spec_is_valid(i) && b.spec_is_valid(i)
                        && spec_arith_u16(
                        op,
                        #[trigger] cell::<PhysicalU16>(*a, i),
                        cell::<PhysicalU16>(*b, i),
                    ) == Err::<u16, RayexecError>(e);
                assert(both_valid(*a, *b, i));
                assert(row_result(op, ArithKind::Int(PhysicalType::UInt16), *a, *b, i) is None);
            }
        }
    }
    r
}

fn execute_u32(op: ArithOp, a: &Array, b: &Array, datatype: DataType) -> (r: Result<
    Array,
    RayexecError,
>)
    requires
        a.spec_data().spec_physical_type() == PhysicalType::UInt32,
        b.spec_data().spec_physical_type() == PhysicalType::UInt32,
    ensures
        kernel_post(op, ArithKind::Int(PhysicalType::UInt32), *a, *b, datatype@, r),
{
    let builder = ArrayBuilder {
        datatype,
        buffer: PrimitiveBuffer::with_len(a.logical_len(), 0u32),
    };
    let kernel = |x: u32, y: u32| -> (o: Result<u32, RayexecError>)
        ensures
            o == spec_arith_u32(op, x, y),
            int_arith(op, PhysicalType::UInt32, x as int, y as int) matches Some(v) ==> fits(
                PhysicalType::UInt32,
                v,
            ),
        { arith_u32(op, x, y) };
    let r = BinaryExecutor::execute::<PhysicalU32, PhysicalU32, PhysicalU32, _>(a, b, builder, kernel);
    proof {
        if r is Ok {
            let out = r->Ok_0;
            assert forall|i: int| both_valid(*a, *b, i) implies row_result(
                op,
                ArithKind::Int(PhysicalType::UInt32),
                *a,
                *b,
                i,
            ) == Some(#[trigger] cell_of(out.spec_data(), i)) by {
                let o = cell::<PhysicalU32>(out, i);
                assert(spec_arith_u32(op, cell::<PhysicalU32>(*a, i), cell::<PhysicalU32>(*b, i))
                    == Ok::<u32, RayexecError>(o));
            }
            lemma_rows_some(op, ArithKind::Int(PhysicalType::UInt32), *a, *b, out);
        } else {
            let e = r->Err_0;
            if a.spec_logical_len() == b.spec_logical_len() {
                let i = choose|i: int|
                    0 <= i < a.spec_logical_len() && a.spec_is_valid(i) && b.spec_is_valid(i)
                        && spec_arith_u32(
                        op,
                        #[trigger] cell::<PhysicalU32>(*a, i),
                        cell::<PhysicalU32>(*b, i),
                    ) == Err::<u32, RayexecError>(e);
                assert(both_valid(*a, *b, i));
                assert(row_result(op, ArithKind::Int(PhysicalType::UInt32), *a, *b, i) is None);
            }
        }
    }
    r
}

fn execute_u64(op: ArithOp, a: &Array, b: &Array, datatype: DataType) -> (r: Result<
    Array,
    RayexecError,
>)
    requires
        a.spec_data().spec_physical_type() == PhysicalType::UInt64,
        b.spec_data().spec_physical_type() == PhysicalType::UInt64,
    ensures
        kernel_post(op, ArithKind::Int(PhysicalType::UInt64), *a, *b, datatype@, r),
{
    let builder = ArrayBuilder {
        datatype,
        buffer: PrimitiveBuffer::with_len(a.logical_len(), 0u64),
    };
    let kernel = |x: u64, y: u64| -> (o: Result<u64, RayexecError>)
        ensures
            o == spec_arith_u64(op, x, y),
            int_arith(op, PhysicalType::UInt64, x as int, y as int) matches Some(v) ==> fits(
                PhysicalType::UInt64,
                v,
            ),
        { arith_u64(op, x, y) };
    let r = BinaryExecutor::execute::<PhysicalU64, PhysicalU64, PhysicalU64, _>(a, b, builder, kernel);
    proof {
        if r is Ok {
            let out = r->Ok_0;
            assert forall|i: int| both_valid(*a, *b, i) implies row_result(
                op,
                ArithKind::Int(PhysicalType::UInt64),
                *a,
                *b,
                i,
            ) == Some(#[trigger] cell_of(out.spec_data(), i)) by {
                let o = cell::<PhysicalU64>(out, i);
                assert(spec_arith_u64(op, cell::<PhysicalU64>(*a, i), cell::<PhysicalU64>(*b, i))
                    == Ok::<u64, RayexecError>(o));
            }
            lemma_rows_some(op, ArithKind::Int(PhysicalType::UInt64), *a, *b, out);
        } else {
            let e = r->Err_0;
            if a.spec_logical_len() == b.spec_logical_len() {
                let i = choose|i: int|
                    0 <= i < a.spec_logical_len() && a.spec_is_valid(i) && b.spec_is_valid(i)
                        && spec_arith_u64(
                        op,
                        #[trigger] cell::<PhysicalU64>(*a, i),
                        cell::<PhysicalU64>(*b, i),
                    ) == Err::<u64, RayexecError>(e);
                assert(both_valid(*a, *b, i));
                assert(row_result(op, ArithKind::Int(PhysicalType::UInt64), *a, *b, i) is None);
            }
        }
    }
    r
}

fn execute_u128(op: ArithOp, a: &Array, b: &Array, datatype: DataType) -> (r: Result<
    Array,
    RayexecError,
>)
    requires
        a.spec_data().spec_physical_type() == PhysicalType::UInt128,
        b.spec_data().spec_physical_type() == PhysicalType::UInt128,
    ensures
        kernel_post(op, ArithKind::Int(PhysicalType::UInt128), *a, *b, datatype@, r),
{
    let builder = ArrayBuilder {
        datatype,
        buffer: PrimitiveBuffer::with_len(a.logical_len(), 0u128),
    };
    let kernel = |x: u128, y: u128| -> (o: Result<u128, RayexecError>)
        ensures
            o == spec_arith_u128(op, x, y),
            int_arith(op, PhysicalType::UInt128, x as int, y as int) matches Some(v) ==> fits(
                PhysicalType::UInt128,
                v,
            ),
        { arith_u128(op, x, y) };
    let r = BinaryExecutor::execute::<PhysicalU128, PhysicalU128, PhysicalU128, _>(a, b, builder, kernel);
    proof {
        if r is Ok {
            let out = r->Ok_0;
            assert forall|i: int| both_valid(*a, *b, i) implies row_result(
                op,
                ArithKind::Int(PhysicalType::UInt128),
                *a,
                *b,
                i,
            ) == Some(#[trigger] cell_of(out.spec_data(), i)) by {
                let o = cell::<PhysicalU128>(out, i);
                assert(spec_arith_u128(op, cell::<PhysicalU128>(*a, i), cell::<PhysicalU128>(*b, i))
                    == Ok::<u128, RayexecError>(o));
            }
            lemma_rows_some(op, ArithKind::Int(PhysicalType::UInt128), *a, *b, out);
        } else {
            let e = r->Err_0;
            if a.spec_logical_len() == b.spec_logical_len() {
                let i = choose|i: int|
                    0 <= i < a.spec_logical_len() && a.spec_is_valid(i) && b.spec_is_valid(i)
                        && spec_arith_u128(
                        op,
                        #[trigger] cell::<PhysicalU128>(*a, i),
                        cell::<PhysicalU128>(*b, i),
                    ) == Err::<u128, RayexecError>(e);
                assert(both_valid(*a, *b, i));
                assert(row_result(op, ArithKind::Int(PhysicalType::UInt128), *a, *b, i) is None);
            }
        }
    }
    r
}

fn execute_decimal_mul_i64(a: &Array, b: &Array, datatype: DataType) -> (r: Result<
    Array,
    RayexecError,
>)
    requires
        a.spec_data().spec_physical_type() == PhysicalType::Int64,
        b.spec_data().spec_physical_type() == PhysicalType::Int64,
    ensures
        kernel_post(ArithOp::Mul, ArithKind::DecimalMul(PhysicalType::Int64), *a, *b, datatype@, r),
{
    let builder = ArrayBuilder { datatype, buffer: PrimitiveBuffer::with_len(a.logical_len(), 0i64) };
    let kernel = |x: i64, y: i64| -> (o: Result<i64, RayexecError>)
        ensures
            o == Ok::<i64, RayexecError>(
                if fits(PhysicalType::Int64, x * y) {
                    (x * y) as i64
                } else {
                    0i64
                },
            ),
        { Ok(decimal_mul_i64(x, y)) };
    let r = BinaryExecutor::execute::<PhysicalI64, PhysicalI64, PhysicalI64, _>(a, b, builder, kernel);
    proof {
        if r is Ok {
            let out = r->Ok_0;
            assert forall|i: int| both_valid(*a, *b, i) implies row_result(
                ArithOp::Mul,
                ArithKind::DecimalMul(PhysicalType::Int64),
                *a,
                *b,
                i,
            ) == Some(#[trigger] cell_of(out.spec_data(), i)) by {
                let o = cell::<PhysicalI64>(out, i);
                let x = cell::<PhysicalI64>(*a, i);
                let y = cell::<PhysicalI64>(*b, i);
                assert(o == if fits(PhysicalType::Int64, x * y) {
                    (x * y) as i64
                } else {
                    0i64
                });
            }
            lemma_rows_some(ArithOp::Mul, ArithKind::DecimalMul(PhysicalType::Int64), *a, *b, out);
        }
    }
    r
}

fn execute_decimal_mul_i128(a: &Array, b: &Array, datatype: DataType) -> (r: Result<
    Array,
    RayexecError,
>)
    requires
        a.spec_data().spec_physical_type() == PhysicalType::Int128,
        b.spec_data().spec_physical_type() == PhysicalType::Int128,
    ensures
        kernel_post(
            ArithOp::Mul,
            ArithKind::DecimalMul(PhysicalType::Int128),
            *a,
            *b,
            datatype@,
            r,
        ),
{
    let builder = ArrayBuilder {
        datatype,
        buffer: PrimitiveBuffer::with_len(a.logical_len(), 0i128),
    };
    let kernel = |x: i128, y: i128| -> (o: Result<i128, RayexecError>)
        ensures
            o == Ok::<i128, RayexecError>(
                if fits(PhysicalType::Int128, x * y) {
                    (x * y) as i128
                } else {
                    0i128
                },
            ),
        { Ok(decimal_mul_i128(x, y)) };
    let r = BinaryExecutor::execute::<PhysicalI128, PhysicalI128, PhysicalI128, _>(a, b, builder, kernel);
    proof {
        if r is Ok {
            let out = r->Ok_0;
            assert forall|i: int| both_valid(*a, *b, i) implies row_result(
                ArithOp::Mul,
                ArithKind::DecimalMul(PhysicalType::Int128),
                *a,
                *b,
                i,
            ) == Some(#[trigger] cell_of(out.spec_data(), i)) by {
                let o = cell::<PhysicalI128>(out, i);
                let x = cell::<PhysicalI128>(*a, i);
                let y = cell::<PhysicalI128>(*b, i);
                assert(o == if fits(PhysicalType::Int128, x * y) {
                    (x * y) as i128
                } else {
                    0i128
                });
            }
            lemma_rows_some(ArithOp::Mul, ArithKind::DecimalMul(PhysicalType::Int128), *a, *b, out);
        }
    }
    r
}

fn execute_date(op: ArithOp, a: &Array, b: &Array, datatype: DataType) -> (r: Result<
    Array,
    RayexecError,
>)
    requires
        a.spec_data().spec_physical_type() == PhysicalType::Int32,
        b.spec_data().spec_physical_type() == PhysicalType::Int64,
        op == ArithOp::Add || op == ArithOp::Sub,
    ensures
        kernel_post(op, ArithKind::DateInt, *a, *b, datatype@, r),
{
    let builder = ArrayBuilder { datatype, buffer: PrimitiveBuffer::with_len(a.logical_len(), 0i32) };
    let kernel = |x: i32, y: i64| -> (o: Result<i32, RayexecError>)
        ensures
            o == spec_arith_i32(op, x, wrap_to(PhysicalType::Int32, y as int) as i32),
            fits(PhysicalType::Int32, wrap_to(PhysicalType::Int32, y as int)),
            int_arith(
                op,
                PhysicalType::Int32,
                x as int,
                wrap_to(PhysicalType::Int32, y as int),
            ) matches Some(v) ==> fits(
                PhysicalType::Int32,
                v,
            ),
        {
            proof {
                lemma_wrap_fits(PhysicalType::Int32, y as int);
            }
            arith_i32(op, x, truncate_to_i32(y))
        };
    let r = BinaryExecutor::execute::<PhysicalI32, PhysicalI64, PhysicalI32, _>(a, b, builder, kernel);
    proof {
        if r is Ok {
            let out = r->Ok_0;
            assert forall|i: int| both_valid(*a, *b, i) implies row_result(
                op,
                ArithKind::DateInt,
                *a,
                *b,
                i,
            ) == Some(#[trigger] cell_of(out.spec_data(), i)) by {
                let o = cell::<PhysicalI32>(out, i);
                let x = cell::<PhysicalI32>(*a, i);
                let y = cell::<PhysicalI64>(*b, i);
                assert(spec_arith_i32(op, x, wrap_to(PhysicalType::Int32, y as int) as i32)
                    == Ok::<i32, RayexecError>(o));
            }
            lemma_rows_some(op, ArithKind::DateInt, *a, *b, out);
        } else {
            let e = r->Err_0;
            if a.spec_logical_len() == b.spec_logical_len() {
                let i = choose|i: int|
                    0 <= i < a.spec_logical_len() && a.spec_is_valid(i) && b.spec_is_valid(i)
                        && spec_arith_i32(
                        op,
                        #[trigger] cell::<PhysicalI32>(*a, i),
                        wrap_to(PhysicalType::Int32, cell::<PhysicalI64>(*b, i) as int) as i32,
                    ) == Err::<i32, RayexecError>(e);
                assert(false);
            }
        }
    }
    r
}

fn execute_interval_mul(a: &Array, b: &Array, datatype: DataType) -> (r: Result<
    Array,
    RayexecError,
>)
    requires
        a.spec_data().spec_physical_type() == PhysicalType::Interval,
        b.spec_data().spec_physical_type() == PhysicalType::Int64,
    ensures
        kernel_post(ArithOp::Mul, ArithKind::IntervalMul, *a, *b, datatype@, r),
{
    let builder = ArrayBuilder {
        datatype,
        buffer: PrimitiveBuffer::with_len(
            a.logical_len(),
            Interval { months: 0, days: 0, nanos: 0 },
        ),
    };
    let kernel = |x: Interval, y: i64| -> (o: Result<Interval, RayexecError>)
        ensures
            o == Ok::<Interval, RayexecError>(
                spec_interval_mul(x, y as int),
            ),
        { Ok(interval_mul(x, y)) };
    let r = BinaryExecutor::execute::<PhysicalInterval, PhysicalI64, PhysicalInterval, _>(a, b, builder, kernel);
    proof {
        if r is Ok {
            let out = r->Ok_0;
            assert forall|i: int| both_valid(*a, *b, i) implies row_result(
                ArithOp::Mul,
                ArithKind::IntervalMul,
                *a,
                *b,
                i,
            ) == Some(#[trigger] cell_of(out.spec_data(), i)) by {
                let o = cell::<PhysicalInterval>(out, i);
                let x = cell::<PhysicalInterval>(*a, i);
                let y = cell::<PhysicalI64>(*b, i);
                assert(o == spec_interval_mul(x, y as int));
            }
            lemma_rows_some(ArithOp::Mul, ArithKind::IntervalMul, *a, *b, out);
        }
    }
    r
}

/// Runs `op` on two columns, the output of type `datatype`.
pub fn execute_arith(op: ArithOp, datatype: &DataType, inputs: &[&Array]) -> (r: Result<
    Array,
    RayexecError,
>)
    ensures
        execute_post(op, datatype@, inputs@, r),
{
    if inputs.len() != 2 {
        return Err(RayexecError::Arity { expected: 2, got: inputs.len() });
    }
    let a: &Array = inputs[0];
    let b: &Array = inputs[1];
    let pa = a.array_data().physical_type();
    let pb = b.array_data().physical_type();
    let out = datatype.clone();
    match (a.datatype(), b.datatype()) {
        (DataType::Decimal64(_), DataType::Decimal64(_)) => {
            if pa == PhysicalType::Int64 && pb == PhysicalType::Int64 {
                match op {
                    ArithOp::Add | ArithOp::Sub => execute_i64(op, a, b, out),
                    ArithOp::Mul => execute_decimal_mul_i64(a, b, out),
                    _ => Err(RayexecError::NotImplemented),
                }
            } else {
                Err(RayexecError::NotImplemented)
            }
        },
        (DataType::Decimal128(_), DataType::Decimal128(_)) => {
            if pa == PhysicalType::Int128 && pb == PhysicalType::Int128 {
                match op {
                    ArithOp::Add | ArithOp::Sub => execute_i128(op, a, b, out),
                    ArithOp::Mul => execute_decimal_mul_i128(a, b, out),
                    _ => Err(RayexecError::NotImplemented),
                }
            } else {
                Err(RayexecError::NotImplemented)
            }
        },
        (DataType::Decimal64(_), _)
        | (DataType::Decimal128(_), _)
        | (_, DataType::Decimal64(_))
        | (_, DataType::Decimal128(_)) => Err(RayexecError::NotImplemented),
        (DataType::Date32, DataType::Int64) => {
            if pa == PhysicalType::Int32 && pb == PhysicalType::Int64 {
                match op {
                    ArithOp::Add | ArithOp::Sub => execute_date(op, a, b, out),
                    _ => Err(RayexecError::NotImplemented),
                }
            } else {
                Err(RayexecError::NotImplemented)
            }
        },
        (DataType::Date32, _) => Err(RayexecError::NotImplemented),
        (DataType::Interval, DataType::Int64) => {
            if pa == PhysicalType::Interval && pb == PhysicalType::Int64 {
                match op {
                    ArithOp::Mul => execute_interval_mul(a, b, out),
                    _ => Err(RayexecError::NotImplemented),
                }
            } else {
                Err(RayexecError::NotImplemented)
            }
        },
        (DataType::Interval, _) => Err(RayexecError::NotImplemented),
        _ => match (pa, pb) {
            (PhysicalType::Int8, PhysicalType::Int8) => execute_i8(op, a, b, out),
            (PhysicalType::Int16, PhysicalType::Int16) => execute_i16(op, a, b, out),
            (PhysicalType::Int32, PhysicalType::Int32) => execute_i32(op, a, b, out),
            (PhysicalType::Int64, PhysicalType::Int64) => execute_i64(op, a, b, out),
            (PhysicalType::Int128, PhysicalType::Int128) => execute_i128(op, a, b, out),
            (PhysicalType::UInt8, PhysicalType::UInt8) => execute_u8(op, a, b, out),
            (PhysicalType::UInt16, PhysicalType::UInt16) => execute_u16(op, a, b, out),
            (PhysicalType::UInt32, PhysicalType::UInt32) => execute_u32(op, a, b, out),
            (PhysicalType::UInt64, PhysicalType::UInt64) => execute_u64(op, a, b, out),
            (PhysicalType::UInt128, PhysicalType::UInt128) => execute_u128(op, a, b, out),
            _ => Err(RayexecError::NotImplemented),
        },
    }
}

/// The signatures shared by `+ - * %`.
pub open spec fn spec_primitive_arith_signatures() -> Seq<SignatureView> {
    seq![
        binary_signature(DataTypeId::Float32, DataTypeId::Float32, DataTypeId::Float32),
        binary_signature(DataTypeId::Float64, DataTypeId::Float64, DataTypeId::Float64),
        binary_signature(DataTypeId::Int8, DataTypeId::Int8, DataTypeId::Int8),
        binary_signature(DataTypeId::Int16, DataTypeId::Int16, DataTypeId::Int16),
        binary_signature(DataTypeId::Int32, DataTypeId::Int32, DataTypeId::Int32),
        binary_signature(DataTypeId::Int64, DataTypeId::Int64, DataTypeId::Int64),
        binary_signature(DataTypeId::UInt8, DataTypeId::UInt8, DataTypeId::UInt8),
        binary_signature(DataTypeId::UInt16, DataTypeId::UInt16, DataTypeId::UInt16),
        binary_signature(DataTypeId::UInt32, DataTypeId::UInt32, DataTypeId::UInt32),
        binary_signature(DataTypeId::UInt64, DataTypeId::UInt64, DataTypeId::UInt64),
        binary_signature(DataTypeId::Date32, DataTypeId::Int64, DataTypeId::Date32),
        binary_signature(DataTypeId::Interval, DataTypeId::Int64, DataTypeId::Interval),
        binary_signature(DataTypeId::Decimal64, DataTypeId::Decimal64, DataTypeId::Decimal64),
    ]
}

/// The signatures of `/`: a quotient of decimals is a double-precision
/// floating-point value.
pub open spec fn spec_div_signatures() -> Seq<SignatureView> {
    seq![
        binary_signature(DataTypeId::Float32, DataTypeId::Float32, DataTypeId::Float32),
        binary_signature(DataTypeId::Float64, DataTypeId::Float64, DataTypeId::Float64),
        binary_signature(DataTypeId::Int8, DataTypeId::Int8, DataTypeId::Int8),
        binary_signature(DataTypeId::Int16, DataTypeId::Int16, DataTypeId::Int16),
        binary_signature(DataTypeId::Int32, DataTypeId::Int32, DataTypeId::Int32),
        binary_signature(DataTypeId::Int64, DataTypeId::Int64, DataTypeId::Int64),
        binary_signature(DataTypeId::UInt8, DataTypeId::UInt8, DataTypeId::UInt8),
        binary_signature(DataTypeId::UInt16, DataTypeId::UInt16, DataTypeId::UInt16),
        binary_signature(DataTypeId::UInt32, DataTypeId::UInt32, DataTypeId::UInt32),
        binary_signature(DataTypeId::UInt64, DataTypeId::UInt64, DataTypeId::UInt64),
        binary_signature(DataTypeId::Date32, DataTypeId::Int64, DataTypeId::Date32),
        binary_signature(DataTypeId::Interval, DataTypeId::Int64, DataTypeId::Interval),
        binary_signature(DataTypeId::Decimal64, DataTypeId::Decimal64, DataTypeId::Float64),
        binary_signature(DataTypeId::Decimal128, DataTypeId::Decimal128, DataTypeId::Float64),
    ]
}

/// The signatures shared by `+ - * %`.
pub fn primitive_arith_signatures() -> (out: Vec<Signature>)
    ensures
        signature_views(out@) == spec_primitive_arith_signatures(),
{
    let mut out: Vec<Signature> = Vec::new();
    out.push(Signature::binary(DataTypeId::Float32, DataTypeId::Float32, DataTypeId::Float32));
    out.push(Signature::binary(DataTypeId::Float64, DataTypeId::Float64, DataTypeId::Float64));
    out.push(Signature::binary(DataTypeId::Int8, DataTypeId::Int8, DataTypeId::Int8));
    out.push(Signature::binary(DataTypeId::Int16, DataTypeId::Int16, DataTypeId::Int16));
    out.push(Signature::binary(DataTypeId::Int32, DataTypeId::Int32, DataTypeId::Int32));
    out.push(Signature::binary(DataTypeId::Int64, DataTypeId::Int64, DataTypeId::Int64));
    out.push(Signature::binary(DataTypeId::UInt8, DataTypeId::UInt8, DataTypeId::UInt8));
    out.push(Signature::binary(DataTypeId::UInt16, DataTypeId::UInt16, DataTypeId::UInt16));
    out.push(Signature::binary(DataTypeId::UInt32, DataTypeId::UInt32, DataTypeId::UInt32));
    out.push(Signature::binary(DataTypeId::UInt64, DataTypeId::UInt64, DataTypeId::UInt64));
    out.push(Signature::binary(DataTypeId::Date32, DataTypeId::Int64, DataTypeId::Date32));
    out.push(Signature::binary(DataTypeId::Interval, DataTypeId::Int64, DataTypeId::Interval));
    out.push(Signature::binary(DataTypeId::Decimal64, DataTypeId::Decimal64, DataTypeId::Decimal64));
    assert(signature_views(out@) =~= spec_primitive_arith_signatures());
    out
}

/// The signatures of `/`.
pub fn div_signatures() -> (out: Vec<Signature>)
    ensures
        signature_views(out@) == spec_div_signatures(),
{
    let mut out: Vec<Signature> = Vec::new();
    out.push(Signature::binary(DataTypeId::Float32, DataTypeId::Float32, DataTypeId::Float32));
    out.push(Signature::binary(DataTypeId::Float64, DataTypeId::Float64, DataTypeId::Float64));
    out.push(Signature::binary(DataTypeId::Int8, DataTypeId::Int8, DataTypeId::Int8));
    out.push(Signature::binary(DataTypeId::Int16, DataTypeId::Int16, DataTypeId::Int16));
    out.push(Signature::binary(DataTypeId::Int32, DataTypeId::Int32, DataTypeId::Int32));
    out.push(Signature::binary(DataTypeId::Int64, DataTypeId::Int64, DataTypeId::Int64));
    out.push(Signature::binary(DataTypeId::UInt8, DataTypeId::UInt8, DataTypeId::UInt8));
    out.push(Signature::binary(DataTypeId::UInt16, DataTypeId::UInt16, DataTypeId::UInt16));
    out.push(Signature::binary(DataTypeId::UInt32, DataTypeId::UInt32, DataTypeId::UInt32));
    out.push(Signature::binary(DataTypeId::UInt64, DataTypeId::UInt64, DataTypeId::UInt64));
    out.push(Signature::binary(DataTypeId::Date32, DataTypeId::Int64, DataTypeId::Date32));
    out.push(Signature::binary(DataTypeId::Interval, DataTypeId::Int64, DataTypeId::Interval));
    out.push(Signature::binary(DataTypeId::Decimal64, DataTypeId::Decimal64, DataTypeId::Float64));
    out.push(Signature::binary(DataTypeId::Decimal128, DataTypeId::Decimal128, DataTypeId::Float64));
    assert(signature_views(out@) =~= spec_div_signatures());
    out
}

/// Whether `op` is planned for operands of types `a` and `b`: two numbers
/// of one type, a date and a 64-bit integer, two decimals of one width
/// (not for `%`), an interval and a 64-bit integer (for `*` and `%`).
pub open spec fn spec_plans(op: ArithOp, a: DataTypeView, b: DataTypeView) -> bool {
    ||| a == b && (a is Float32 || a is Float64 || a is Int8 || a is Int16 || a is Int32
        || a is Int64 || a is UInt8 || a is UInt16 || a is UInt32 || a is UInt64)
    ||| a is Date32 && b is Int64
    ||| op != ArithOp::Rem && ((a is Decimal64 && b is Decimal64) || (a is Decimal128
        && b is Decimal128))
    ||| (op == ArithOp::Mul || op == ArithOp::Rem) && a is Interval && b is Int64
}

/// The type that `op` returns for a left operand of type `a`: that type,
/// but double precision for a quotient of decimals.
pub open spec fn spec_return_type(op: ArithOp, a: DataTypeView) -> DataTypeView {
    if op == ArithOp::Div && (a is Decimal64 || a is Decimal128) {
        DataTypeView::Float64
    } else {
        a
    }
}

/// What planning `op` for `inputs` owes: `Arity` unless there are two
/// inputs, `InvalidInputTypes` with the two types where the pair is not
/// planned, and else the return type.
pub open spec fn plan_post(op: ArithOp, inputs: Seq<DataType>, r: Result<DataType, RayexecError>) -> bool {
    match r {
        Ok(datatype) => {
            &&& inputs.len() == 2
            &&& spec_plans(op, inputs[0]@, inputs[1]@)
            &&& datatype@ == spec_return_type(op, inputs[0]@)
        },
        Err(e) => if inputs.len() != 2 {
            e == (RayexecError::Arity { expected: 2, got: inputs.len() as usize })
        } else {
            !spec_plans(op, inputs[0]@, inputs[1]@) && e == spec_invalid_input_types(inputs)
        },
    }
}

/// Plans `op` for operands of the types `inputs`: the type of the result.
pub fn plan_arith(op: ArithOp, inputs: &[DataType]) -> (r: Result<DataType, RayexecError>)
    ensures
        plan_post(op, inputs@, r),
{
    match plan_check_num_args(inputs.len(), 2) {
        Ok(_) => {},
        Err(e) => {
            return Err(e);
        },
    }
    let planned = match (&inputs[0], &inputs[1]) {
        (DataType::Float32, DataType::Float32)
        | (DataType::Float64, DataType::Float64)
        | (DataType::Int8, DataType::Int8)
        | (DataType::Int16, DataType::Int16)
        | (DataType::Int32, DataType::Int32)
        | (DataType::Int64, DataType::Int64)
        | (DataType::UInt8, DataType::UInt8)
        | (DataType::UInt16, DataType::UInt16)
        | (DataType::UInt32, DataType::UInt32)
        | (DataType::UInt64, DataType::UInt64)
        | (DataType::Date32, DataType::Int64) => true,
        (DataType::Decimal64(_), DataType::Decimal64(_))
        | (DataType::Decimal128(_), DataType::Decimal128(_)) => match op {
            ArithOp::Rem => false,
            _ => true,
        },
        (DataType::Interval, DataType::Int64) => match op {
            ArithOp::Mul | ArithOp::Rem => true,
            _ => false,
        },
        _ => false,
    };
    if !planned {
        return Err(invalid_input_types_error(inputs));
    }
    match (op, &inputs[0]) {
        (ArithOp::Div, DataType::Decimal64(_)) | (ArithOp::Div, DataType::Decimal128(_)) => Ok(
            DataType::Float64,
        ),
        _ => Ok(inputs[0].clone()),
    }
}

/// The function `+`.
#[derive(Debug, Clone, Copy, PartialEq, Eq)]
pub struct Add;

impl Add {
    /// The name of the function.
    pub fn name(&self) -> (r: &'static str)
        ensures
            r@ == "+"@,
    {
        "+"
    }

    /// The other names of the function.
    pub fn aliases(&self) -> (r: Vec<&'static str>)
        ensures
            r@.len() == 1,
            r@[0]@ == "add"@,
    {
        let mut out: Vec<&'static str> = Vec::new();
        out.push("add");
        out
    }

    /// The argument types that the function is declared for.
    pub fn signatures(&self) -> (r: Vec<Signature>)
        ensures
            signature_views(r@) == spec_primitive_arith_signatures(),
    {
        primitive_arith_signatures()
    }

    /// Plans the function for arguments of the types `inputs`.
    pub fn plan_from_datatypes(&self, inputs: &[DataType]) -> (r: Result<AddImpl, RayexecError>)
        ensures
            match r {
                Ok(planned) => plan_post(ArithOp::Add, inputs@, Ok(planned.spec_return_type())),
                Err(e) => plan_post(ArithOp::Add, inputs@, Err(e)),
            },
    {
        match plan_arith(ArithOp::Add, inputs) {
            Ok(datatype) => Ok(AddImpl { datatype }),
            Err(e) => Err(e),
        }
    }
}

/// The function `+`, planned for its argument types.
#[derive(Debug, PartialEq, Eq)]
pub struct AddImpl {
    datatype: DataType,
}

impl AddImpl {
    /// The type of the result.
    pub closed spec fn spec_return_type(&self) -> DataType {
        self.datatype
    }

    /// The plan that returns `datatype`, as it is read back from a stored
    /// state.
    pub fn new(datatype: DataType) -> (r: AddImpl)
        ensures
            r.spec_return_type() == datatype,
    {
        AddImpl { datatype }
    }

    /// The function that this is a plan of.
    pub fn scalar_function(&self) -> (r: Add)
        ensures
            r == Add,
    {
        Add
    }

    /// The type of the result.
    pub fn return_type(&self) -> (r: DataType)
        ensures
            r@ == self.spec_return_type()@,
    {
        self.datatype.clone()
    }

    /// Computes the addition of two columns, row by row.
    pub fn execute(&self, inputs: &[&Array]) -> (r: Result<Array, RayexecError>)
        ensures
            execute_post(ArithOp::Add, self.spec_return_type()@, inputs@, r),
    {
        execute_arith(ArithOp::Add, &self.datatype, inputs)
    }
}

/// The function `-`.
#[derive(Debug, Clone, Copy, PartialEq, Eq)]
pub struct Sub;

impl Sub {
    /// The name of the function.
    pub fn name(&self) -> (r: &'static str)
        ensures
            r@ == "-"@,
    {
        "-"
    }

    /// The other names of the function.
    pub fn aliases(&self) -> (r: Vec<&'static str>)
        ensures
            r@.len() == 1,
            r@[0]@ == "sub"@,
    {
        let mut out: Vec<&'static str> = Vec::new();
        out.push("sub");
        out
    }

    /// The argument types that the function is declared for.
    pub fn signatures(&self) -> (r: Vec<Signature>)
        ensures
            signature_views(r@) == spec_primitive_arith_signatures(),
    {
        primitive_arith_signatures()
    }

    /// Plans the function for arguments of the types `inputs`.
    pub fn plan_from_datatypes(&self, inputs: &[DataType]) -> (r: Result<SubImpl, RayexecError>)
        ensures
            match r {
                Ok(planned) => plan_post(ArithOp::Sub, inputs@, Ok(planned.spec_return_type())),
                Err(e) => plan_post(ArithOp::Sub, inputs@, Err(e)),
            },
    {
        match plan_arith(ArithOp::Sub, inputs) {
            Ok(datatype) => Ok(SubImpl { datatype }),
            Err(e) => Err(e),
        }
    }
}

/// The function `-`, planned for its argument types.
#[derive(Debug, PartialEq, Eq)]
pub struct SubImpl {
    datatype: DataType,
}

impl SubImpl {
    /// The type of the result.
    pub closed spec fn spec_return_type(&self) -> DataType {
        self.datatype
    }

    /// The plan that returns `datatype`, as it is read back from a stored
    /// state.
    pub fn new(datatype: DataType) -> (r: SubImpl)
        ensures
            r.spec_return_type() == datatype,
    {
        SubImpl { datatype }
    }

    /// The function that this is a plan of.
    pub fn scalar_function(&self) -> (r: Sub)
        ensures
            r == Sub,
    {
        Sub
    }

    /// The type of the result.
    pub fn return_type(&self) -> (r: DataType)
        ensures
            r@ == self.spec_return_type()@,
    {
        self.datatype.clone()
    }

    /// Computes the subtraction of two columns, row by row.
    pub fn execute(&self, inputs: &[&Array]) -> (r: Result<Array, RayexecError>)
        ensures
            execute_post(ArithOp::Sub, self.spec_return_type()@, inputs@, r),
    {
        execute_arith(ArithOp::Sub, &self.datatype, inputs)
    }
}

/// The function `/`.
#[derive(Debug, Clone, Copy, PartialEq, Eq)]
pub struct Div;

impl Div {
    /// The name of the function.
    pub fn name(&self) -> (r: &'static str)
        ensures
            r@ == "/"@,
    {
        "/"
    }

    /// The other names of the function.
    pub fn aliases(&self) -> (r: Vec<&'static str>)
        ensures
            r@.len() == 1,
            r@[0]@ == "div"@,
    {
        let mut out: Vec<&'static str> = Vec::new();
        out.push("div");
        out
    }

    /// The argument types that the function is declared for.
    pub fn signatures(&self) -> (r: Vec<Signature>)
        ensures
            signature_views(r@) == spec_div_signatures(),
    {
        div_signatures()
    }

    /// Plans the function for arguments of the types `inputs`.
    pub fn plan_from_datatypes(&self, inputs: &[DataType]) -> (r: Result<DivImpl, RayexecError>)
        ensures
            match r {
                Ok(planned) => plan_post(ArithOp::Div, inputs@, Ok(planned.spec_return_type())),
                Err(e) => plan_post(ArithOp::Div, inputs@, Err(e)),
            },
    {
        match plan_arith(ArithOp::Div, inputs) {
            Ok(datatype) => Ok(DivImpl { datatype }),
            Err(e) => Err(e),
        }
    }
}

/// The function `/`, planned for its argument types.
#[derive(Debug, PartialEq, Eq)]
pub struct DivImpl {
    datatype: DataType,
}

impl DivImpl {
    /// The type of the result.
    pub closed spec fn spec_return_type(&self) -> DataType {
        self.datatype
    }

    /// The plan that returns `datatype`, as it is read back from a stored
    /// state.
    pub fn new(datatype: DataType) -> (r: DivImpl)
        ensures
            r.spec_return_type() == datatype,
    {
        DivImpl { datatype }
    }

    /// The function that this is a plan of.
    pub fn scalar_function(&self) -> (r: Div)
        ensures
            r == Div,
    {
        Div
    }

    /// The type of the result.
    pub fn return_type(&self) -> (r: DataType)
        ensures
            r@ == self.spec_return_type()@,
    {
        self.datatype.clone()
    }

    /// Computes the division of two columns, row by row.
    pub fn execute(&self, inputs: &[&Array]) -> (r: Result<Array, RayexecError>)
        ensures
            execute_post(ArithOp::Div, self.spec_return_type()@, inputs@, r),
    {
        execute_arith(ArithOp::Div, &self.datatype, inputs)
    }
}

/// The function `*`.
#[derive(Debug, Clone, Copy, PartialEq, Eq)]
pub struct Mul;

impl Mul {
    /// The name of the function.
    pub fn name(&self) -> (r: &'static str)
        ensures
            r@ == "*"@,
    {
        "*"
    }

    /// The other names of the function.
    pub fn aliases(&self) -> (r: Vec<&'static str>)
        ensures
            r@.len() == 1,
            r@[0]@ == "mul"@,
    {
        let mut out: Vec<&'static str> = Vec::new();
        out.push("mul");
        out
    }

    /// The argument types that the function is declared for.
    pub fn signatures(&self) -> (r: Vec<Signature>)
        ensures
            signature_views(r@) == spec_primitive_arith_signatures(),
    {
        primitive_arith_signatures()
    }

    /// Plans the function for arguments of the types `inputs`.
    pub fn plan_from_datatypes(&self, inputs: &[DataType]) -> (r: Result<MulImpl, RayexecError>)
        ensures
            match r {
                Ok(planned) => plan_post(ArithOp::Mul, inputs@, Ok(planned.spec_return_type())),
                Err(e) => plan_post(ArithOp::Mul, inputs@, Err(e)),
            },
    {
        match plan_arith(ArithOp::Mul, inputs) {
            Ok(datatype) => Ok(MulImpl { datatype }),
            Err(e) => Err(e),
        }
    }
}

/// The function `*`, planned for its argument types.
#[derive(Debug, PartialEq, Eq)]
pub struct MulImpl {
    datatype: DataType,
}

impl MulImpl {
    /// The type of the result.
    pub closed spec fn spec_return_type(&self) -> DataType {
        self.datatype
    }

    /// The plan that returns `datatype`, as it is read back from a stored
    /// state.
    pub fn new(datatype: DataType) -> (r: MulImpl)
        ensures
            r.spec_return_type() == datatype,
    {
        MulImpl { datatype }
    }

    /// The function that this is a plan of.
    pub fn scalar_function(&self) -> (r: Mul)
        ensures
            r == Mul,
    {
        Mul
    }

    /// The type of the result.
    pub fn return_type(&self) -> (r: DataType)
        ensures
            r@ == self.spec_return_type()@,
    {
        self.datatype.clone()
    }

    /// Computes the multiplication of two columns, row by row.
    pub fn execute(&self, inputs: &[&Array]) -> (r: Result<Array, RayexecError>)
        ensures
            execute_post(ArithOp::Mul, self.spec_return_type()@, inputs@, r),
    {
        execute_arith(ArithOp::Mul, &self.datatype, inputs)
    }
}

/// The function `%`.
#[derive(Debug, Clone, Copy, PartialEq, Eq)]
pub struct Rem;

impl Rem {
    /// The name of the function.
    pub fn name(&self) -> (r: &'static str)
        ensures
            r@ == "%"@,
    {
        "%"
    }

    /// The other names of the function.
    pub fn aliases(&self) -> (r: Vec<&'static str>)
        ensures
            r@.len() == 2,
            r@[0]@ == "rem"@,
            r@[1]@ == "mod"@,
    {
        let mut out: Vec<&'static str> = Vec::new();
        out.push("rem");
        out.push("mod");
        out
    }

    /// The argument types that the function is declared for.
    pub fn signatures(&self) -> (r: Vec<Signature>)
        ensures
            signature_views(r@) == spec_primitive_arith_signatures(),
    {
        primitive_arith_signatures()
    }

    /// Plans the function for arguments of the types `inputs`.
    pub fn plan_from_datatypes(&self, inputs: &[DataType]) -> (r: Result<RemImpl, RayexecError>)
        ensures
            match r {
                Ok(planned) => plan_post(ArithOp::Rem, inputs@, Ok(planned.spec_return_type())),
                Err(e) => plan_post(ArithOp::Rem, inputs@, Err(e)),
            },
    {
        match plan_arith(ArithOp::Rem, inputs) {
            Ok(datatype) => Ok(RemImpl { datatype }),
            Err(e) => Err(e),
        }
    }
}

/// The function `%`, planned for its argument types.
#[derive(Debug, PartialEq, Eq)]
pub struct RemImpl {
    datatype: DataType,
}

impl RemImpl {
    /// The type of the result.
    pub closed spec fn spec_return_type(&self) -> DataType {
        self.datatype
    }

    /// The plan that returns `datatype`, as it is read back from a stored
    /// state.
    pub fn new(datatype: DataType) -> (r: RemImpl)
        ensures
            r.spec_return_type() == datatype,
    {
        RemImpl { datatype }
    }

    /// The function that this is a plan of.
    pub fn scalar_function(&self) -> (r: Rem)
        ensures
            r == Rem,
    {
        Rem
    }

    /// The type of the result.
    pub fn return_type(&self) -> (r: DataType)
        ensures
            r@ == self.spec_return_type()@,
    {
        self.datatype.clone()
    }

    /// Computes the remainder of two columns, row by row.
    pub fn execute(&self, inputs: &[&Array]) -> (r: Result<Array, RayexecError>)
        ensures
            execute_post(ArithOp::Rem, self.spec_return_type()@, inputs@, r),
    {
        execute_arith(ArithOp::Rem, &self.datatype, inputs)
    }
}

} // verus!
