//! A strided n-dimensional array engine: owned storage addressed through a
//! shape / stride / offset triple, zero-copy views and slices, permutation,
//! and elementwise and matrix-product kernels.

pub mod error;
pub mod scalar;
pub mod indexing;
pub mod tensor;
pub mod transforms;
pub mod laws;
pub mod elementwise;
pub mod matmul;
pub mod view;
