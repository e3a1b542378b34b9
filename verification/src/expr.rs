//! Physical expressions.

use vstd::prelude::*;

use crate::arrays::array::Array;
use crate::arrays::batch::Batch;
use crate::arrays::scalar::{ScalarValue, ScalarValueView};
use crate::error::RayexecError;

verus! {

/// An expression that is one value, whatever the row.
#[derive(Debug, PartialEq)]
pub struct PhysicalLiteralExpr {
    pub literal: ScalarValue,
}

impl PhysicalLiteralExpr {
    /// The literal as a column of as many rows as `batch` has: one physical
    /// row, read by every logical row. Fails as
    /// [`ScalarValue::as_array`] does.
    pub fn eval(&self, batch: &Batch) -> (r: Result<Array, RayexecError>)
        ensures
            match r {
                Ok(a) => {
                    &&& a.wf()
                    &&& !(self.literal@ is List) && !(self.literal@ is Struct)
                    &&& a.spec_datatype()@ == self.literal@.datatype()
                    &&& a.spec_logical_len() == batch.spec_num_rows()
                    &&& a.spec_data().spec_len() == 1
                    &&& forall|i: int|
                        0 <= i < batch.spec_num_rows() ==> #[trigger] a.spec_logical_value(i)
                            == Ok::<ScalarValueView, RayexecError>(self.literal@)
                },
                Err(e) => {
                    ||| (self.literal@ is List || self.literal@ is Struct) && e
                        == RayexecError::NotImplemented
                    ||| (self.literal@ is Utf8 || self.literal@ is Binary) && e is OutOfBounds
                },
            },
    {
        self.literal.as_array(batch.num_rows())
    }
}

} // verus!
