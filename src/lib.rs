//! Fixed-size vectors and matrices over an open family of element types.
//!
//! Element arithmetic goes through the standard operator traits, so the element
//! type of a result is whatever the element operation yields. Contracts speak of
//! `add_spec`, `sub_spec` and `mul_spec`, the meaning vstd gives those operators.

pub mod error;
pub mod number;
pub mod seqops;
pub mod vector;
pub mod matrix;

pub use error::LinalgError;
pub use matrix::Matrix;
pub use number::{Float, Integer, Number};
pub use vector::Vector;
