//! Unit-safe linear algebra: matrices whose rows and columns carry physical
//! units, so that entry `(i, j)` has the unit `row[i] / col[j]`.
//!
//! The crate is organised in layers:
//!
//! - [`unit`]: the value-level unit algebra (twelve integer exponents: four
//!   scale primes and eight base dimensions);
//! - [`dims`]: dimension lists and the list operations the matrix types use
//!   (concatenation, mapping, zipping, slicing, uniformity);
//! - [`raw`]: plain column-major storage and its structural operations;
//! - [`matrix`] / [`uniform`]: the mixed-unit and uniform-unit matrices.

pub mod unit;
pub mod dims;
pub mod raw;
pub mod relations;
pub mod quantity;
pub mod matrix;
pub mod views;
pub mod matrix_ops;
pub mod linalg;
pub mod decomp;
pub mod generalized;
pub mod uniform;
pub mod uniform_ops;
pub mod uniform_decomp;
pub mod uniform_reduce;
pub mod backend;
pub mod backend_decomp;
pub mod backend_reduce;
pub mod laws;
pub mod display;
pub mod obligations;
