//! The length of text and bytes.
//!
//! `length` counts Unicode scalar values; `byte_length` and `bit_length`
//! count the raw bytes and bits, of text and of bytes alike. The result is
//! a 64-bit integer, and a count that such an integer cannot hold is given
//! as the largest one.

use vstd::prelude::*;
use vstd::utf8::{decode_utf8, valid_utf8};

use crate::arrays::array::Array;
use crate::arrays::datatype::{DataType, DataTypeId, DataTypeView};
use crate::arrays::executor::{
    binary_cell,
    binary_row_gives,
    cell,
    ArrayBuilder,
    PrimitiveBuffer,
    UnaryExecutor,
};
use crate::arrays::physical_type::{PhysicalI64, PhysicalType};
use crate::arrays::text::decode_text;
use crate::error::RayexecError;
use crate::functions::{
    invalid_input_types_error,
    plan_check_num_args,
    signature_views,
    spec_invalid_input_types,
    unary_signature,
    Signature,
};

verus! {

/// The count `n` as a 64-bit integer, the largest one when `n` is above it.
pub open spec fn saturate(n: int) -> i64 {
    if n > i64::MAX {
        i64::MAX
    } else {
        n as i64
    }
}

/// The number of Unicode scalar values that the UTF-8 bytes encode.
pub open spec fn spec_char_length(bytes: Seq<u8>) -> i64
    recommends
        valid_utf8(bytes),
{
    saturate(decode_utf8(bytes).len() as int)
}

/// The number of bytes.
pub open spec fn spec_byte_length(bytes: Seq<u8>) -> i64 {
    saturate(bytes.len() as int)
}

/// The number of bits.
pub open spec fn spec_bit_length(bytes: Seq<u8>) -> i64 {
    saturate(8 * (bytes.len() as int))
}

/// The number of bits is eight times the number of bytes, wherever a 64-bit
/// integer holds it.
pub proof fn lemma_bit_length_is_eight_bytes(bytes: Seq<u8>)
    requires
        8 * bytes.len() <= i64::MAX,
    ensures
        spec_bit_length(bytes) == 8 * spec_byte_length(bytes),
{
}

/// The count `n` as a 64-bit integer.
pub fn count_to_i64(n: usize) -> (r: i64)
    ensures
        r == saturate(n as int),
{
    if n as u64 > 0x7fff_ffff_ffff_ffffu64 {
        i64::MAX
    } else {
        n as i64
    }
}

/// The number of Unicode scalar values in `bytes`, or `InvalidUtf8` when
/// the bytes are not UTF-8.
pub fn char_length(bytes: &[u8]) -> (r: Result<i64, RayexecError>)
    ensures
        r == if valid_utf8(bytes@) {
            Ok::<i64, RayexecError>(spec_char_length(bytes@))
        } else {
            Err::<i64, RayexecError>(RayexecError::InvalidUtf8)
        },
{
    match decode_text(bytes) {
        Ok(text) => Ok(count_to_i64(text.unicode_len())),
        Err(e) => Err(e),
    }
}

/// The number of bytes in `bytes`.
pub fn byte_length(bytes: &[u8]) -> (r: i64)
    ensures
        r == spec_byte_length(bytes@),
{
    count_to_i64(bytes.len())
}

/// The number of bits in `bytes`.
pub fn bit_length(bytes: &[u8]) -> (r: i64)
    ensures
        r == spec_bit_length(bytes@),
{
    let bits: u128 = (bytes.len() as u128) * 8;
    if bits > 0x7fff_ffff_ffff_ffffu128 {
        i64::MAX
    } else {
        bits as i64
    }
}

/// Which length is taken.
#[derive(Debug, Clone, Copy, PartialEq, Eq, Structural)]
pub enum LengthKind {
    Chars,
    Bytes,
    Bits,
}

/// The length of kind `kind` of `bytes`, or `None` where characters are
/// counted in bytes that are not UTF-8.
pub open spec fn spec_length(kind: LengthKind, bytes: Seq<u8>) -> Option<i64> {
    match kind {
        LengthKind::Chars => if valid_utf8(bytes) {
            Some(spec_char_length(bytes))
        } else {
            None
        },
        LengthKind::Bytes => Some(spec_byte_length(bytes)),
        LengthKind::Bits => Some(spec_bit_length(bytes)),
    }
}

/// What a length kernel owes.
///
/// It takes one column of variable-length storage. The output is a column
/// of 64-bit integers with the rows of the input, null exactly where the
/// input is null, and holding in every other row the length of the row's
/// bytes. Counting characters fails with `InvalidUtf8` when some valid row
/// is not UTF-8.
pub open spec fn length_post(kind: LengthKind, inputs: Seq<&Array>, r: Result<Array, RayexecError>) -> bool {
    if inputs.len() != 1 {
        r == Err::<Array, RayexecError>(
            RayexecError::Arity { expected: 1, got: inputs.len() as usize },
        )
    } else {
        let input = *inputs[0];
        if !(input.spec_data() is Binary) {
            r == Err::<Array, RayexecError>(
                RayexecError::PhysicalTypeMismatch {
                    expected: PhysicalType::Binary,
                    got: input.spec_data().spec_physical_type(),
                },
            )
        } else {
            match r {
                Ok(out) => {
                    &&& out.wf()
                    &&& out.spec_datatype()@ == DataTypeView::Int64
                    &&& !out.spec_is_dictionary()
                    &&& out.spec_logical_len() == input.spec_logical_len()
                    &&& out.spec_data().spec_physical_type() == PhysicalType::Int64
                    &&& forall|i: int|
                        0 <= i < input.spec_logical_len() ==> out.spec_is_valid(i)
                            == input.spec_is_valid(i)
                    &&& forall|i: int|
                        0 <= i < input.spec_logical_len() && input.spec_is_valid(i)
                            ==> spec_length(kind, binary_cell(input, i)) == Some(
                            #[trigger] cell::<PhysicalI64>(out, i),
                        )
                },
                Err(e) => {
                    &&& e == RayexecError::InvalidUtf8
                    &&& exists|i: int|
                        0 <= i < input.spec_logical_len() && input.spec_is_valid(i) && spec_length(
                            kind,
                            #[trigger] binary_cell(input, i),
                        ) is None
                },
            }
        }
    }
}

/// Takes the length of kind `kind` of every row of one column.
pub fn execute_length(kind: LengthKind, inputs: &[&Array]) -> (r: Result<Array, RayexecError>)
    ensures
        length_post(kind, inputs@, r),
{
    if inputs.len() != 1 {
        return Err(RayexecError::Arity { expected: 1, got: inputs.len() });
    }
    let input: &Array = inputs[0];
    let builder = ArrayBuilder {
        datatype: DataType::Int64,
        buffer: PrimitiveBuffer::with_len(input.logical_len(), 0i64),
    };
    let kernel = |bytes: &[u8]| -> (o: Result<i64, RayexecError>)
        ensures
            o == (match spec_length(kind, bytes@) {
                Some(n) => Ok::<i64, RayexecError>(n),
                None => Err::<i64, RayexecError>(RayexecError::InvalidUtf8),
            }),
        {
            match kind {
                LengthKind::Chars => char_length(bytes),
                LengthKind::Bytes => Ok(byte_length(bytes)),
                LengthKind::Bits => Ok(bit_length(bytes)),
            }
        };
    let r = UnaryExecutor::execute_binary::<PhysicalI64, _>(input, builder, kernel);
    proof {
        if r is Ok {
            let out = r->Ok_0;
            assert forall|i: int|
                0 <= i < input.spec_logical_len() && input.spec_is_valid(i) implies spec_length(
                kind,
                binary_cell(*input, i),
            ) == Some(#[trigger] cell::<PhysicalI64>(out, i)) by {
                assert(binary_row_gives(
                    kernel,
                    binary_cell(*input, i),
                    Ok::<i64, RayexecError>(cell::<PhysicalI64>(out, i)),
                ));
            }
        } else if input.spec_data() is Binary {
            let e = r->Err_0;
            let i = choose|i: int|
                0 <= i < input.spec_logical_len() && input.spec_is_valid(i) && binary_row_gives(
                    kernel,
                    #[trigger] binary_cell(*input, i),
                    Err::<i64, RayexecError>(e),
                );
            assert(spec_length(kind, binary_cell(*input, i)) is None);
        }
    }
    r
}

/// What planning a length function owes: `Arity` unless there is one input,
/// `InvalidInputTypes` with the type where it is not text (nor bytes, for
/// the functions that count bytes and bits).
pub open spec fn plan_length_post(kind: LengthKind, inputs: Seq<DataType>, r: Result<
    (),
    RayexecError,
>) -> bool {
    match r {
        Ok(_) => inputs.len() == 1 && spec_length_accepts(kind, inputs[0]@),
        Err(e) => if inputs.len() != 1 {
            e == (RayexecError::Arity { expected: 1, got: inputs.len() as usize })
        } else {
            !spec_length_accepts(kind, inputs[0]@) && e == spec_invalid_input_types(inputs)
        },
    }
}

/// Whether the length of kind `kind` is taken of values of type `dt`.
pub open spec fn spec_length_accepts(kind: LengthKind, dt: DataTypeView) -> bool {
    dt is Utf8 || (dt is Binary && kind != LengthKind::Chars)
}

/// Plans the length of kind `kind` for arguments of the types `inputs`.
pub fn plan_length(kind: LengthKind, inputs: &[DataType]) -> (r: Result<(), RayexecError>)
    ensures
        plan_length_post(kind, inputs@, r),
{
    match plan_check_num_args(inputs.len(), 1) {
        Ok(_) => {},
        Err(e) => {
            return Err(e);
        },
    }
    match (&inputs[0], kind) {
        (DataType::Utf8, _) => Ok(()),
        (DataType::Binary, LengthKind::Bytes) | (DataType::Binary, LengthKind::Bits) => Ok(()),
        _ => Err(invalid_input_types_error(inputs)),
    }
}

/// The function `length`: the number of characters of a text.
#[derive(Debug, Clone, Copy, PartialEq, Eq)]
pub struct Length;

/// The kernel of `length`.
#[derive(Debug, Clone, Copy, PartialEq, Eq)]
pub struct StrLengthImpl;

/// The function `byte_length`: the number of bytes of a text or byte string.
#[derive(Debug, Clone, Copy, PartialEq, Eq)]
pub struct ByteLength;

/// The kernel of `byte_length`.
#[derive(Debug, Clone, Copy, PartialEq, Eq)]
pub struct ByteLengthImpl;

/// The function `bit_length`: the number of bits of a text or byte string.
#[derive(Debug, Clone, Copy, PartialEq, Eq)]
pub struct BitLength;

/// The kernel of `bit_length`.
#[derive(Debug, Clone, Copy, PartialEq, Eq)]
pub struct BitLengthImpl;

impl Length {
    /// The name of the function.
    pub fn name(&self) -> (r: &'static str)
        ensures
            r@ == "length"@,
    {
        "length"
    }

    /// The other names of the function.
    pub fn aliases(&self) -> (r: Vec<&'static str>)
        ensures
            r@.len() == 2,
            r@[0]@ == "char_length"@,
            r@[1]@ == "character_length"@,
    {
        let mut out: Vec<&'static str> = Vec::new();
        out.push("char_length");
        out.push("character_length");
        out
    }

    /// The argument types that the function is declared for.
    pub fn signatures(&self) -> (r: Vec<Signature>)
        ensures
            signature_views(r@) == seq![unary_signature(DataTypeId::Utf8, DataTypeId::Int64)],
    {
        let mut out: Vec<Signature> = Vec::new();
        out.push(Signature::unary(DataTypeId::Utf8, DataTypeId::Int64));
        assert(signature_views(out@) =~= seq![
            unary_signature(DataTypeId::Utf8, DataTypeId::Int64),
        ]);
        out
    }

    /// Plans the function for arguments of the types `inputs`.
    pub fn plan(&self, inputs: &[DataType]) -> (r: Result<StrLengthImpl, RayexecError>)
        ensures
            match r {
                Ok(_) => plan_length_post(LengthKind::Chars, inputs@, Ok(())),
                Err(e) => plan_length_post(LengthKind::Chars, inputs@, Err(e)),
            },
    {
        match plan_length(LengthKind::Chars, inputs) {
            Ok(_) => Ok(StrLengthImpl),
            Err(e) => Err(e),
        }
    }

    /// The type of the result.
    pub fn return_type(&self) -> (r: DataType)
        ensures
            r@ == DataTypeView::Int64,
    {
        DataType::Int64
    }
}

impl StrLengthImpl {
    /// Counts the characters of every row of a column of text.
    pub fn execute(&self, inputs: &[&Array]) -> (r: Result<Array, RayexecError>)
        ensures
            length_post(LengthKind::Chars, inputs@, r),
    {
        execute_length(LengthKind::Chars, inputs)
    }
}

impl ByteLength {
    /// The name of the function.
    pub fn name(&self) -> (r: &'static str)
        ensures
            r@ == "byte_length"@,
    {
        "byte_length"
    }

    /// The other names of the function.
    pub fn aliases(&self) -> (r: Vec<&'static str>)
        ensures
            r@.len() == 1,
            r@[0]@ == "octet_length"@,
    {
        let mut out: Vec<&'static str> = Vec::new();
        out.push("octet_length");
        out
    }

    /// The argument types that the function is declared for.
    pub fn signatures(&self) -> (r: Vec<Signature>)
        ensures
            signature_views(r@) == seq![
                unary_signature(DataTypeId::Utf8, DataTypeId::Int64),
                unary_signature(DataTypeId::Binary, DataTypeId::Int64),
            ],
    {
        let mut out: Vec<Signature> = Vec::new();
        out.push(Signature::unary(DataTypeId::Utf8, DataTypeId::Int64));
        out.push(Signature::unary(DataTypeId::Binary, DataTypeId::Int64));
        assert(signature_views(out@) =~= seq![
            unary_signature(DataTypeId::Utf8, DataTypeId::Int64),
            unary_signature(DataTypeId::Binary, DataTypeId::Int64),
        ]);
        out
    }

    /// Plans the function for arguments of the types `inputs`.
    pub fn plan(&self, inputs: &[DataType]) -> (r: Result<ByteLengthImpl, RayexecError>)
        ensures
            match r {
                Ok(_) => plan_length_post(LengthKind::Bytes, inputs@, Ok(())),
                Err(e) => plan_length_post(LengthKind::Bytes, inputs@, Err(e)),
            },
    {
        match plan_length(LengthKind::Bytes, inputs) {
            Ok(_) => Ok(ByteLengthImpl),
            Err(e) => Err(e),
        }
    }

    /// The type of the result.
    pub fn return_type(&self) -> (r: DataType)
        ensures
            r@ == DataTypeView::Int64,
    {
        DataType::Int64
    }
}

impl ByteLengthImpl {
    /// Counts the bytes of every row of a column of text or bytes.
    pub fn execute(&self, inputs: &[&Array]) -> (r: Result<Array, RayexecError>)
        ensures
            length_post(LengthKind::Bytes, inputs@, r),
    {
        execute_length(LengthKind::Bytes, inputs)
    }
}

impl BitLength {
    /// The name of the function.
    pub fn name(&self) -> (r: &'static str)
        ensures
            r@ == "bit_length"@,
    {
        "bit_length"
    }

    /// The other names of the function: none.
    pub fn aliases(&self) -> (r: Vec<&'static str>)
        ensures
            r@.len() == 0,
    {
        Vec::new()
    }

    /// The argument types that the function is declared for.
    pub fn signatures(&self) -> (r: Vec<Signature>)
        ensures
            signature_views(r@) == seq![
                unary_signature(DataTypeId::Utf8, DataTypeId::Int64),
                unary_signature(DataTypeId::Binary, DataTypeId::Int64),
            ],
    {
        let mut out: Vec<Signature> = Vec::new();
        out.push(Signature::unary(DataTypeId::Utf8, DataTypeId::Int64));
        out.push(Signature::unary(DataTypeId::Binary, DataTypeId::Int64));
        assert(signature_views(out@) =~= seq![
            unary_signature(DataTypeId::Utf8, DataTypeId::Int64),
            unary_signature(DataTypeId::Binary, DataTypeId::Int64),
        ]);
        out
    }

    /// Plans the function for arguments of the types `inputs`.
    pub fn plan(&self, inputs: &[DataType]) -> (r: Result<BitLengthImpl, RayexecError>)
        ensures
            match r {
                Ok(_) => plan_length_post(LengthKind::Bits, inputs@, Ok(())),
                Err(e) => plan_length_post(LengthKind::Bits, inputs@, Err(e)),
            },
    {
        match plan_length(LengthKind::Bits, inputs) {
            Ok(_) => Ok(BitLengthImpl),
            Err(e) => Err(e),
        }
    }

    /// The type of the result.
    pub fn return_type(&self) -> (r: DataType)
        ensures
            r@ == DataTypeView::Int64,
    {
        DataType::Int64
    }
}

impl BitLengthImpl {
    /// Counts the bits of every row of a column of text or bytes.
    pub fn execute(&self, inputs: &[&Array]) -> (r: Result<Array, RayexecError>)
        ensures
            length_post(LengthKind::Bits, inputs@, r),
    {
        execute_length(LengthKind::Bits, inputs)
    }
}

} // verus!
