//! The single error type returned by every fallible operation of the crate.

use vstd::prelude::*;

use crate::arrays::datatype::DataTypeId;
use crate::arrays::physical_type::PhysicalType;

verus! {

/// What a statement lacks or has too much.
#[derive(Debug, Clone, Copy, PartialEq, Eq, Structural)]
pub enum SyntaxError {
    /// A statement was to begin and there are no more tokens.
    EmptyStatement,
    /// A statement begins with a word that is no keyword.
    ExpectedKeyword,
    /// A statement begins with a keyword that begins no statement.
    UnexpectedKeyword,
    /// A statement begins with a token that is no word.
    ExpectedStatement,
    /// A statement follows another without a semicolon between them.
    ExpectedSemicolon,
    /// A schema is created with `OR REPLACE`.
    OrReplaceNotSupported,
    /// A schema is created with `TEMP` or `TEMPORARY`.
    TemporaryNotSupported,
    /// A variable is set without `TO` or `=` after its name.
    ExpectedSetValue,
    /// A token that is no word stands where a name is read.
    ExpectedObjectReference,
    /// An expression was to begin and there are no more tokens.
    UnexpectedEnd,
    /// An expression begins with a token that begins none.
    ExpectedExpression,
}

/// What went wrong, with the offending values.
#[derive(Debug, Clone, Copy, PartialEq, Eq, Structural)]
pub enum RayexecError {
    /// A function was planned with the wrong number of arguments.
    Arity { expected: usize, got: usize },
    /// No signature of the function accepts the given input types.
    InvalidInputTypes { first: DataTypeId, second: Option<DataTypeId> },
    /// A buffer was read as a physical type other than the one it holds.
    PhysicalTypeMismatch { expected: PhysicalType, got: PhysicalType },
    /// A row index, selection index or slice lies outside the underlying length.
    OutOfBounds { index: usize, len: usize },
    /// Variable-length data declared as text is not valid UTF-8.
    InvalidUtf8,
    /// A validity mask was installed whose length differs from the primary capacity.
    InvalidValidityLength { got: usize, want: usize },
    /// An intentional gap.
    NotImplemented,
    /// Two kernel inputs disagree on their number of rows.
    LengthMismatch { left: usize, right: usize },
    /// An integer division or remainder met a zero divisor.
    DivideByZero,
    /// A state that the planner should have ruled out.
    InternalInvariantViolated,
    /// A column reference that was taken for one of the current scope lies
    /// in an outer scope.
    CorrelatedColumn { scope_level: usize, item_idx: usize },
    /// A column name matches more than one column of a scope; the two first
    /// matches are given.
    AmbiguousColumn { first: usize, second: usize },
    /// Two scopes that are merged both hold the same table alias; the
    /// positions of the two columns that hold it are given.
    DuplicateTable { left: usize, right: usize },
    /// A list that a kernel reads element by element holds a null element;
    /// the logical row of the list is given.
    NullListElement { row: usize },
    /// A statement does not parse; `at` is the position of the offending
    /// token among the tokens, or where the tokens end.
    Syntax { kind: SyntaxError, at: usize },
    /// A reference has fewer parts than are asked of it.
    EndOfReference { expected: usize, got: usize },
}

} // verus!
