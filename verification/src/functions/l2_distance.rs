//! Euclidean distance between two lists of floating-point values.
//!
//! The library plans the function and walks the lists; the arithmetic on
//! the elements is done by the reducer that the caller supplies.

use core::marker::PhantomData;
use vstd::prelude::*;

use crate::arrays::array::Array;
use crate::arrays::datatype::{DataType, DataTypeId, DataTypeView};
use crate::arrays::executor::{
    reduce_post,
    ArrayBuilder,
    BinaryListReducer,
    ListExecutor,
    PrimitiveBuffer,
};
use crate::arrays::physical_type::{PhysicalF16, PhysicalF32, PhysicalF64, PhysicalStorage};
use crate::error::RayexecError;
use crate::functions::{
    binary_signature,
    plan_check_num_args,
    signature_views,
    Signature,
};

verus! {

/// Euclidean distance.
#[derive(Debug, Clone, Copy, PartialEq, Eq)]
pub struct L2Distance;

/// The kernel of the Euclidean distance over lists whose elements are
/// stored as `S`.
#[derive(Debug, PartialEq, Eq)]
pub struct L2DistanceImpl<S: PhysicalStorage> {
    _s: PhantomData<S>,
}

/// The kernel that a plan of the Euclidean distance picked, by the element
/// type of the lists.
#[derive(Debug, PartialEq, Eq)]
pub enum L2DistancePlan {
    Half(L2DistanceImpl<PhysicalF16>),
    Single(L2DistanceImpl<PhysicalF32>),
    Double(L2DistanceImpl<PhysicalF64>),
}

/// The element type that the distance is planned for, where `a` and `b` are
/// lists of one floating-point type.
pub open spec fn spec_element_type(a: DataTypeView, b: DataTypeView) -> Option<DataTypeId> {
    match (a, b) {
        (DataTypeView::List(x), DataTypeView::List(y)) => match (*x, *y) {
            (DataTypeView::Float16, DataTypeView::Float16) => Some(DataTypeId::Float16),
            (DataTypeView::Float32, DataTypeView::Float32) => Some(DataTypeId::Float32),
            (DataTypeView::Float64, DataTypeView::Float64) => Some(DataTypeId::Float64),
            _ => None,
        },
        _ => None,
    }
}

/// The error for operands that the distance is not planned for: the types
/// of the elements where both operands are lists, else the types of the
/// operands.
pub open spec fn spec_plan_error(a: DataTypeView, b: DataTypeView) -> RayexecError {
    match (a, b) {
        (DataTypeView::List(x), DataTypeView::List(y)) => RayexecError::InvalidInputTypes {
            first: x.id(),
            second: Some(y.id()),
        },
        _ => RayexecError::InvalidInputTypes { first: a.id(), second: Some(b.id()) },
    }
}

impl L2DistancePlan {
    /// The element type that the plan is for.
    pub open spec fn spec_element(self) -> DataTypeId {
        match self {
            L2DistancePlan::Half(_) => DataTypeId::Float16,
            L2DistancePlan::Single(_) => DataTypeId::Float32,
            L2DistancePlan::Double(_) => DataTypeId::Float64,
        }
    }
}

impl L2Distance {
    /// The name of the function.
    pub fn name(&self) -> (r: &'static str)
        ensures
            r@ == "l2_distance"@,
    {
        "l2_distance"
    }

    /// The other names of the function.
    pub fn aliases(&self) -> (r: Vec<&'static str>)
        ensures
            r@.len() == 1,
            r@[0]@ == "array_distance"@,
    {
        let mut out: Vec<&'static str> = Vec::new();
        out.push("array_distance");
        out
    }

    /// The argument types that the function is declared for.
    pub fn signatures(&self) -> (r: Vec<Signature>)
        ensures
            signature_views(r@) == seq![
                binary_signature(DataTypeId::List, DataTypeId::List, DataTypeId::Float64),
            ],
    {
        let mut out: Vec<Signature> = Vec::new();
        out.push(Signature::binary(DataTypeId::List, DataTypeId::List, DataTypeId::Float64));
        assert(signature_views(out@) =~= seq![
            binary_signature(DataTypeId::List, DataTypeId::List, DataTypeId::Float64),
        ]);
        out
    }

    /// The type of the result.
    pub fn return_type(&self) -> (r: DataType)
        ensures
            r@ == DataTypeView::Float64,
    {
        DataType::Float64
    }

    /// Plans the function for arguments of the types `inputs`: two lists of
    /// one floating-point type. Fails with `Arity` unless there are two
    /// inputs, and with `InvalidInputTypes` for any other pair.
    pub fn plan(&self, inputs: &[DataType]) -> (r: Result<L2DistancePlan, RayexecError>)
        ensures
            match r {
                Ok(plan) => inputs@.len() == 2 && spec_element_type(inputs@[0]@, inputs@[1]@)
                    == Some(plan.spec_element()),
                Err(e) => if inputs@.len() != 2 {
                    e == (RayexecError::Arity { expected: 2, got: inputs@.len() as usize })
                } else {
                    spec_element_type(inputs@[0]@, inputs@[1]@) is None && e == spec_plan_error(
                        inputs@[0]@,
                        inputs@[1]@,
                    )
                },
            },
    {
        match plan_check_num_args(inputs.len(), 2) {
            Ok(_) => {},
            Err(e) => {
                return Err(e);
            },
        }
        match (&inputs[0], &inputs[1]) {
            (DataType::List(a), DataType::List(b)) => {
                match (&*a.datatype, &*b.datatype) {
                    (DataType::Float16, DataType::Float16) => Ok(
                        L2DistancePlan::Half(L2DistanceImpl::new()),
                    ),
                    (DataType::Float32, DataType::Float32) => Ok(
                        L2DistancePlan::Single(L2DistanceImpl::new()),
                    ),
                    (DataType::Float64, DataType::Float64) => Ok(
                        L2DistancePlan::Double(L2DistanceImpl::new()),
                    ),
                    (x, y) => Err(
                        RayexecError::InvalidInputTypes {
                            first: x.datatype_id(),
                            second: Some(y.datatype_id()),
                        },
                    ),
                }
            },
            (a, b) => Err(
                RayexecError::InvalidInputTypes {
                    first: a.datatype_id(),
                    second: Some(b.datatype_id()),
                },
            ),
        }
    }
}

impl<S: PhysicalStorage> L2DistanceImpl<S> {
    /// The kernel.
    pub fn new() -> (r: Self) {
        L2DistanceImpl { _s: PhantomData }
    }

    /// Reduces the two lists of every row with a reducer of kind `R` and
    /// gives the results as a column of double-precision values.
    ///
    /// Fails with `Arity` unless there are two inputs, and else as the list
    /// driver does: for columns that are not lists over storage `S`, for
    /// columns of different lengths, and at the first row whose lists differ
    /// in length or hold a null element.
    pub fn execute<R: BinaryListReducer<S::Type, u64>>(&self, inputs: &[&Array]) -> (r: Result<
        Array,
        RayexecError,
    >)
        ensures
            inputs@.len() != 2 ==> r == Err::<Array, RayexecError>(
                RayexecError::Arity { expected: 2, got: inputs@.len() as usize },
            ),
            inputs@.len() == 2 ==> reduce_post::<S, PhysicalF64, R>(
                *inputs@[0],
                *inputs@[1],
                inputs@[0].spec_logical_len(),
                DataType::Float64,
                r,
            ),
    {
        if inputs.len() != 2 {
            return Err(RayexecError::Arity { expected: 2, got: inputs.len() });
        }
        let a: &Array = inputs[0];
        let b: &Array = inputs[1];
        let builder = ArrayBuilder {
            datatype: DataType::Float64,
            buffer: PrimitiveBuffer::with_len(a.logical_len(), 0u64),
        };
        ListExecutor::binary_reduce::<S, PhysicalF64, R>(a, b, builder)
    }
}

} // verus!
