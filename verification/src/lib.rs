//! Columnar array runtime and typed scalar-function execution.
//!
//! The crate holds the physical representation of a typed column (data
//! buffer, validity mask, dictionary selection), the scalar value model, the
//! kernel drivers that walk rows honouring validity and selection, and the
//! arithmetic and string-length kernels built on them. Alongside stand the
//! name-resolution scope, the common-table-expression bookkeeping of the
//! binder, the parser of the first statements of the SQL dialect, and the
//! layout of a table in Markdown.

pub mod error;
pub mod arrays;
pub mod functions;
pub mod scope;
pub mod binder;
pub mod ast;
pub mod parser;
pub mod expr;
pub mod execution;
pub mod markdown_table;
