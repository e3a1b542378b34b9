//! The columnar array runtime.

pub mod physical_type;
pub mod datatype;
pub mod bitmap;
pub mod selection;
pub mod validity;
pub mod storage;
pub mod text;
pub mod scalar;
pub mod array;
pub mod executor;
pub mod batch;
