//! Functions that the library names and that are computed outside it.

use vstd::prelude::*;

verus! {

/// The sine of a floating-point value.
#[derive(Debug, Clone, Copy, PartialEq, Eq)]
pub struct SinOp;

impl SinOp {
    /// The name of the function.
    pub fn name(&self) -> (r: &'static str)
        ensures
            r@ == "sin"@,
    {
        "sin"
    }

    /// What the function does, in a sentence.
    pub fn description(&self) -> (r: &'static str)
        ensures
            r@ == "Compute the sin of value"@,
    {
        "Compute the sin of value"
    }
}

/// The table function that reads a Parquet file.
#[derive(Debug, Clone, Copy, PartialEq, Eq)]
pub struct ReadParquet;

impl ReadParquet {
    /// The name of the function.
    pub fn name(&self) -> (r: &'static str)
        ensures
            r@ == "read_parquet"@,
    {
        "read_parquet"
    }

    /// The other names of the function.
    pub fn aliases(&self) -> (r: Vec<&'static str>)
        ensures
            r@.len() == 1,
            r@[0]@ == "parquet_scan"@,
    {
        let mut out: Vec<&'static str> = Vec::new();
        out.push("parquet_scan");
        out
    }
}

} // verus!
