//! Scalar functions: signatures, planning and kernels.

use vstd::prelude::*;

use crate::arrays::datatype::{DataType, DataTypeId};
use crate::error::RayexecError;

pub mod int_arith;
pub mod arith;
pub mod length;
pub mod l2_distance;
pub mod builtin;

verus! {

/// One accepted shape of a function's arguments, with the type it returns.
#[derive(Debug, PartialEq, Eq)]
pub struct Signature {
    /// The types of the positional arguments, in order.
    pub positional_args: Vec<DataTypeId>,
    /// The type of any further arguments, where the function takes them.
    pub variadic_arg: Option<DataTypeId>,
    /// The type of the result.
    pub return_type: DataTypeId,
}

/// The mathematical value of a [`Signature`].
pub struct SignatureView {
    pub positional_args: Seq<DataTypeId>,
    pub variadic_arg: Option<DataTypeId>,
    pub return_type: DataTypeId,
}

impl View for Signature {
    type V = SignatureView;

    open spec fn view(&self) -> SignatureView {
        SignatureView {
            positional_args: self.positional_args@,
            variadic_arg: self.variadic_arg,
            return_type: self.return_type,
        }
    }
}

/// The views of `signatures`, in order.
pub open spec fn signature_views(signatures: Seq<Signature>) -> Seq<SignatureView> {
    Seq::new(signatures.len(), |i: int| signatures[i]@)
}

/// The signature of one argument of type `a`.
pub open spec fn unary_signature(a: DataTypeId, ret: DataTypeId) -> SignatureView {
    SignatureView { positional_args: seq![a], variadic_arg: None, return_type: ret }
}

/// The signature of two arguments of types `a` and `b`.
pub open spec fn binary_signature(a: DataTypeId, b: DataTypeId, ret: DataTypeId) -> SignatureView {
    SignatureView { positional_args: seq![a, b], variadic_arg: None, return_type: ret }
}

impl SignatureView {
    /// Whether arguments of the types `inputs` fit the signature exactly:
    /// the positional types in order, and then only the variadic type.
    pub open spec fn accepts(self, inputs: Seq<DataTypeId>) -> bool {
        &&& inputs.len() >= self.positional_args.len()
        &&& forall|i: int|
            0 <= i < self.positional_args.len() ==> inputs[i] == self.positional_args[i]
        &&& match self.variadic_arg {
            None => inputs.len() == self.positional_args.len(),
            Some(v) => forall|i: int|
                self.positional_args.len() <= i < inputs.len() ==> inputs[i] == v,
        }
    }
}

impl Signature {
    /// The signature of one positional argument.
    pub fn unary(a: DataTypeId, ret: DataTypeId) -> (r: Signature)
        ensures
            r@ == unary_signature(a, ret),
    {
        let mut positional_args: Vec<DataTypeId> = Vec::new();
        positional_args.push(a);
        let r = Signature { positional_args, variadic_arg: None, return_type: ret };
        assert(r@.positional_args =~= seq![a]);
        r
    }

    /// The signature of two positional arguments.
    pub fn binary(a: DataTypeId, b: DataTypeId, ret: DataTypeId) -> (r: Signature)
        ensures
            r@ == binary_signature(a, b, ret),
    {
        let mut positional_args: Vec<DataTypeId> = Vec::new();
        positional_args.push(a);
        positional_args.push(b);
        let r = Signature { positional_args, variadic_arg: None, return_type: ret };
        assert(r@.positional_args =~= seq![a, b]);
        r
    }

    /// Whether arguments of the types `inputs` fit the signature exactly.
    #[verifier::loop_isolation(false)]
    pub fn exact_match(&self, inputs: &[DataTypeId]) -> (b: bool)
        ensures
            b == self@.accepts(inputs@),
    {
        let n = self.positional_args.len();
        if inputs.len() < n {
            return false;
        }
        let mut i: usize = 0;
        while i < n
            invariant
                n == self.positional_args.len(),
                n <= inputs.len(),
                i <= n,
                forall|j: int| 0 <= j < i ==> inputs@[j] == self.positional_args@[j],
            decreases n - i,
        {
            if inputs[i] != self.positional_args[i] {
                return false;
            }
            i += 1;
        }
        match self.variadic_arg {
            None => inputs.len() == n,
            Some(v) => {
                let mut k: usize = n;
                while k < inputs.len()
                    invariant
                        n <= k <= inputs.len(),
                        forall|j: int| n <= j < k ==> inputs@[j] == v,
                    decreases inputs.len() - k,
                {
                    if inputs[k] != v {
                        return false;
                    }
                    k += 1;
                }
                true
            },
        }
    }
}

/// Checks that a function is planned with `expected` arguments, or fails
/// with `Arity`.
pub fn plan_check_num_args(got: usize, expected: usize) -> (r: Result<(), RayexecError>)
    ensures
        match r {
            Ok(_) => got == expected,
            Err(e) => got != expected && e == (RayexecError::Arity { expected, got }),
        },
{
    if got != expected {
        return Err(RayexecError::Arity { expected, got });
    }
    Ok(())
}

/// The error for input types that no signature of a function accepts.
pub fn invalid_input_types_error(inputs: &[DataType]) -> (e: RayexecError)
    requires
        1 <= inputs@.len() <= 2,
    ensures
        e == spec_invalid_input_types(inputs@),
{
    let first = inputs[0].datatype_id();
    let second = if inputs.len() > 1 {
        Some(inputs[1].datatype_id())
    } else {
        None
    };
    RayexecError::InvalidInputTypes { first, second }
}

/// The error for input types that no signature of a function accepts.
pub open spec fn spec_invalid_input_types(inputs: Seq<DataType>) -> RayexecError {
    RayexecError::InvalidInputTypes {
        first: inputs[0]@.id(),
        second: if inputs.len() > 1 {
            Some(inputs[1]@.id())
        } else {
            None
        },
    }
}

} // verus!
