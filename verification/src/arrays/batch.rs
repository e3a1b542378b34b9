//! A set of arrays of one logical length.

use vstd::prelude::*;

use crate::arrays::array::Array;
use crate::error::RayexecError;

verus! {

/// The position of the first array of `cols` whose logical length is not
/// `len`, or the number of arrays when every length is.
pub open spec fn first_other_length(cols: Seq<Array>, len: nat, from: int) -> int
    decreases cols.len() - from,
{
    if from < 0 || from >= cols.len() {
        cols.len() as int
    } else if cols[from].spec_logical_len() != len {
        from
    } else {
        first_other_length(cols, len, from + 1)
    }
}

/// `first_other_length` is the least position of another length.
pub proof fn lemma_first_other_length(cols: Seq<Array>, len: nat, from: int)
    requires
        0 <= from <= cols.len(),
    ensures
        from <= first_other_length(cols, len, from) <= cols.len(),
        forall|i: int|
            from <= i < first_other_length(cols, len, from) ==> (
            #[trigger] cols[i]).spec_logical_len() == len,
        first_other_length(cols, len, from) < cols.len() ==> cols[first_other_length(
            cols,
            len,
            from,
        )].spec_logical_len() != len,
    decreases cols.len() - from,
{
    if from < cols.len() && cols[from].spec_logical_len() == len {
        lemma_first_other_length(cols, len, from + 1);
    }
}

/// An ordered collection of arrays that all have the same number of
/// logical rows.
#[derive(Debug, PartialEq)]
pub struct Batch {
    cols: Vec<Array>,
    num_rows: usize,
}

impl Batch {
    /// The representation invariant: every column has `num_rows` logical
    /// rows.
    #[verifier::type_invariant]
    pub closed spec fn wf(&self) -> bool {
        forall|i: int|
            0 <= i < self.cols@.len() ==> (#[trigger] self.cols@[i]).wf()
                && self.cols@[i].spec_logical_len() == self.num_rows
    }

    /// The columns.
    pub closed spec fn spec_columns(&self) -> Seq<Array> {
        self.cols@
    }

    /// The number of rows of every column.
    pub closed spec fn spec_num_rows(&self) -> nat {
        self.num_rows as nat
    }

    /// The batch without columns and without rows.
    pub fn empty() -> (r: Batch)
        ensures
            r.wf(),
            r.spec_columns().len() == 0,
            r.spec_num_rows() == 0,
    {
        Batch { cols: Vec::new(), num_rows: 0 }
    }

    /// The batch of the columns `cols`, which has the rows of the first of
    /// them. Fails with `LengthMismatch` at the first column of another
    /// length.
    pub fn try_new(cols: Vec<Array>) -> (r: Result<Batch, RayexecError>)
        ensures
            match r {
                Ok(b) => {
                    &&& b.wf()
                    &&& b.spec_columns() == cols@
                    &&& b.spec_num_rows() == if cols@.len() == 0 {
                        0
                    } else {
                        cols@[0].spec_logical_len()
                    }
                    &&& forall|i: int|
                        0 <= i < cols@.len() ==> (#[trigger] cols@[i]).spec_logical_len()
                            == b.spec_num_rows()
                },
                Err(e) => {
                    let at = first_other_length(cols@, cols@[0].spec_logical_len(), 0);
                    &&& 0 < at < cols@.len()
                    &&& e == (RayexecError::LengthMismatch {
                        left: cols@[0].spec_logical_len() as usize,
                        right: cols@[at].spec_logical_len() as usize,
                    })
                },
            },
    {
        if cols.len() == 0 {
            return Ok(Batch { cols, num_rows: 0 });
        }
        let num_rows = cols[0].logical_len();
        proof {
            lemma_first_other_length(cols@, num_rows as nat, 0);
        }
        let mut i: usize = 0;
        while i < cols.len()
            invariant
                i <= cols.len(),
                cols@.len() > 0,
                num_rows == cols@[0].spec_logical_len(),
                forall|j: int| 0 <= j < i ==> (#[trigger] cols@[j]).spec_logical_len() == num_rows,
                forall|j: int| 0 <= j < i ==> (#[trigger] cols@[j]).wf(),
                first_other_length(cols@, num_rows as nat, 0) == first_other_length(
                    cols@,
                    num_rows as nat,
                    i as int,
                ),
            decreases cols.len() - i,
        {
            let col = &cols[i];
            proof {
                use_type_invariant(col);
            }
            let len = col.logical_len();
            if len != num_rows {
                return Err(RayexecError::LengthMismatch { left: num_rows, right: len });
            }
            i += 1;
        }
        Ok(Batch { cols, num_rows })
    }

    /// The number of rows of every column.
    pub fn num_rows(&self) -> (n: usize)
        ensures
            n == self.spec_num_rows(),
    {
        self.num_rows
    }

    /// The number of columns.
    pub fn num_columns(&self) -> (n: usize)
        ensures
            n == self.spec_columns().len(),
    {
        self.cols.len()
    }

    /// The columns.
    pub fn columns(&self) -> (r: &Vec<Array>)
        ensures
            r@ == self.spec_columns(),
            forall|i: int|
                0 <= i < r@.len() ==> (#[trigger] r@[i]).spec_logical_len()
                    == self.spec_num_rows(),
    {
        proof {
            use_type_invariant(self);
        }
        &self.cols
    }

    /// Column `idx`, or `None` when there is no such column.
    pub fn column(&self, idx: usize) -> (r: Option<&Array>)
        ensures
            match r {
                Some(a) => idx < self.spec_columns().len() && *a == self.spec_columns()[idx as int]
                    && a.spec_logical_len() == self.spec_num_rows(),
                None => idx >= self.spec_columns().len(),
            },
    {
        proof {
            use_type_invariant(self);
        }
        if idx < self.cols.len() {
            Some(&self.cols[idx])
        } else {
            None
        }
    }
}

} // verus!
