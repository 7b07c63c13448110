//! Equality filtering over columnar tables of categorical codes.
//!
//! A table is a list of equally long columns of 32-bit codes. A filter takes
//! a table and a target code and answers, row by row, whether any column
//! holds the target in that row. Two filters are provided: a scalar one,
//! which serves as the definition of the result, and a chunked one, which
//! works on fixed-width groups of lanes and finishes with a scalar tail. The
//! chunked filter encodes a flag as a lane of all ones or all zeros; read as
//! "nonzero means included", its mask is the scalar filter's mask.

pub mod frame;
pub mod mock;
pub mod model;
pub mod naive;
pub mod simd;
pub mod theorems;
