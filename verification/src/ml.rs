//! The containers and the arithmetic they are built on.

mod buffer;
pub mod eigen;
pub mod error;
pub mod grid;
pub mod laws;
pub mod matrix;
pub mod norm;
pub mod scalar;
pub mod tensor;
pub mod vector;
