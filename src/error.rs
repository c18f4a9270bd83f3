use vstd::prelude::*;

verus! {

/// The failure kinds shared by every operation of the engine.
#[derive(Debug, Clone, PartialEq)]
pub enum TensorError {
    ShapeMismatch,
    IndexOutOfBounds,
    NotImplemented,
    DimensionalMismatch,
    InvalidPermutation,
    BroadcastError,
    MixedStorage,
    IncompatibleTypes(&'static str),
}

pub type Result<T> = core::result::Result<T, TensorError>;

impl TensorError {
    /// A short human-readable description of the failure.
    pub fn message(&self) -> (r: &'static str)
        ensures
            self is ShapeMismatch ==> r@ == "Tensor shapes do not match"@,
            self is IndexOutOfBounds ==> r@ == "Index is out of bounds"@,
    {
        match self {
            TensorError::ShapeMismatch => "Tensor shapes do not match",
            TensorError::IndexOutOfBounds => "Index is out of bounds",
            TensorError::NotImplemented => "T not implemented",
            TensorError::InvalidPermutation => "Invalid permutation",
            TensorError::DimensionalMismatch => "Dimensions do not match",
            TensorError::MixedStorage => "",
            TensorError::IncompatibleTypes(..) => "",
            TensorError::BroadcastError => "",
        }
    }
}

} // verus!
