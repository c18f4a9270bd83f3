use vstd::prelude::*;

use crate::error::{Result, TensorError};
use crate::tensor::Tensor;

verus! {

/// `dims` lists every axis of `0..dims.len()` exactly once.
pub open spec fn is_permutation(dims: Seq<usize>) -> bool {
    &&& forall|i: int| 0 <= i < dims.len() ==> #[trigger] dims[i] < dims.len()
    &&& forall|i: int, j: int|
        0 <= i < dims.len() && 0 <= j < dims.len() && i != j ==> #[trigger] dims[i] != #[trigger] dims[j]
}

/// The sequence reordered so that its `i`-th entry is the old entry `dims[i]`.
pub open spec fn permuted(s: Seq<usize>, dims: Seq<usize>) -> Seq<usize> {
    Seq::new(dims.len(), |i: int| s[dims[i] as int])
}

/// The sequence with entries `a` and `b` exchanged.
pub open spec fn swapped(s: Seq<usize>, a: int, b: int) -> Seq<usize> {
    s.update(a, s[b]).update(b, s[a])
}

/// Whether `dims` is a bijection on `0..dims.len()`.
pub fn is_valid_perm(dims: &[usize]) -> (r: bool)
    ensures
        r == is_permutation(dims@),
{
    let n = dims.len();
    let mut seen: Vec<bool> = Vec::with_capacity(n);
    let mut k: usize = 0;
    while k < n
        invariant
            k <= n,
            seen@.len() == k,
            forall|v: int| 0 <= v < k ==> !seen@[v],
        decreases n - k,
    {
        seen.push(false);
        k = k + 1;
    }
    let mut i: usize = 0;
    while i < n
        invariant
            i <= n,
            n == dims@.len(),
            seen@.len() == n,
            forall|j: int| 0 <= j < i ==> dims@[j] < n && seen@[dims@[j] as int],
            forall|v: int| 0 <= v < n && #[trigger] seen@[v] ==> exists|j: int| 0 <= j < i && dims@[j] == v,
            forall|j: int, l: int| 0 <= j < i && 0 <= l < i && j != l ==> dims@[j] != dims@[l],
        decreases n - i,
    {
        let d = dims[i];
        if d >= n {
            return false;
        }
        if seen[d] {
            let ghost j = choose|j: int| 0 <= j < i && dims@[j] == d;
            assert(dims@[j] == dims@[i as int]);
            return false;
        }
        seen.set(d, true);
        i = i + 1;
    }
    true
}

impl<T: Copy> Tensor<T> {
    /// Reorders the axes: axis `i` of the result is axis `dims[i]` of this
    /// tensor. The data and offset are kept as they are. Fails with a shape
    /// mismatch unless there is one entry per axis, and with an invalid
    /// permutation unless every axis is named exactly once.
    pub fn permute(&self, dims: &[usize]) -> (r: Result<Self>)
        requires
            self.wf(),
        ensures
            dims@.len() != self.shape@.len() ==> r == Err::<Self, TensorError>(TensorError::ShapeMismatch),
            dims@.len() == self.shape@.len() && !is_permutation(dims@) ==> r == Err::<Self, TensorError>(TensorError::InvalidPermutation),
            dims@.len() == self.shape@.len() && is_permutation(dims@) ==> r is Ok,
            r is Ok ==> r->Ok_0.shape@ == permuted(self.shape@, dims@) && r->Ok_0.strides@ == permuted(self.strides@, dims@)
                && r->Ok_0.data@ == self.data@ && r->Ok_0.offset == self.offset && r->Ok_0.wf(),
    {
        if dims.len() != self.shape.len() {
            return Err(TensorError::ShapeMismatch);
        }
        if !is_valid_perm(dims) {
            return Err(TensorError::InvalidPermutation);
        }
        let n = dims.len();
        let mut new_shape: Vec<usize> = Vec::with_capacity(n);
        let mut new_strides: Vec<usize> = Vec::with_capacity(n);
        let mut i: usize = 0;
        while i < n
            invariant
                i <= n,
                n == dims@.len(),
                n == self.shape@.len(),
                n == self.strides@.len(),
                is_permutation(dims@),
                new_shape@ =~= permuted(self.shape@, dims@.take(i as int)),
                new_strides@ =~= permuted(self.strides@, dims@.take(i as int)),
            decreases n - i,
        {
            let d = dims[i];
            new_shape.push(self.shape[d]);
            new_strides.push(self.strides[d]);
            i = i + 1;
            assert(new_shape@ =~= permuted(self.shape@, dims@.take(i as int)));
            assert(new_strides@ =~= permuted(self.strides@, dims@.take(i as int)));
        }
        assert(dims@.take(n as int) =~= dims@);
        Ok(Tensor { data: crate::tensor::copy_vec(&self.data), shape: new_shape, strides: new_strides, offset: self.offset })
    }

    /// Exchanges two axes. Fails with an index error when either axis is not
    /// an axis of the tensor.
    pub fn transpose(&self, dim1: usize, dim2: usize) -> (r: Result<Self>)
        requires
            self.wf(),
        ensures
            r is Err <==> dim1 >= self.shape@.len() || dim2 >= self.shape@.len(),
            r is Err ==> r->Err_0 == TensorError::IndexOutOfBounds,
            r is Ok ==> r->Ok_0.shape@ == swapped(self.shape@, dim1 as int, dim2 as int)
                && r->Ok_0.strides@ == swapped(self.strides@, dim1 as int, dim2 as int)
                && r->Ok_0.data@ == self.data@ && r->Ok_0.offset == self.offset && r->Ok_0.wf(),
    {
        let n = self.shape.len();
        if dim1 >= n || dim2 >= n {
            return Err(TensorError::IndexOutOfBounds);
        }
        let mut dims: Vec<usize> = Vec::with_capacity(n);
        let mut i: usize = 0;
        while i < n
            invariant
                i <= n,
                dims@.len() == i,
                forall|j: int| 0 <= j < i ==> dims@[j] == j,
            decreases n - i,
        {
            dims.push(i);
            i = i + 1;
        }
        let a = dims[dim1];
        let b = dims[dim2];
        dims.set(dim1, b);
        dims.set(dim2, a);
        let r = self.permute(dims.as_slice());
        assert(permuted(self.shape@, dims@) =~= swapped(self.shape@, dim1 as int, dim2 as int));
        assert(permuted(self.strides@, dims@) =~= swapped(self.strides@, dim1 as int, dim2 as int));
        r
    }
}

} // verus!
