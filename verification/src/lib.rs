//! Dense linear algebra over an abstract scalar: matrices, vectors and tensors
//! with norms, products, transpose, trace, and eigenvalues by power iteration.
//!
//! The element type is any [`ml::scalar::Scalar`]. The arithmetic of a scalar is
//! taken as given; what is proved is what the containers do with it: which
//! elements are combined, in which order, and into which position.

pub mod ml;
