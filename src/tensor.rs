use vstd::prelude::*;

use crate::error::{Result, TensorError};
use crate::indexing::{
    compute_strides, dot, flat_index, in_bounds, product,
    row_major_strides, same_shape, shape_product, strides_fit,
};

verus! {

/// An owned n-dimensional array: a contiguous buffer addressed through a
/// shape, per-axis strides and a starting offset.
#[derive(Debug, Clone)]
pub struct Tensor<T> {
    pub data: Vec<T>,
    pub shape: Vec<usize>,
    pub strides: Vec<usize>,
    pub offset: usize,
}

/// An element-by-element copy of a buffer.
pub fn copy_vec<T: Copy>(v: &[T]) -> (r: Vec<T>)
    ensures
        r@ == v@,
{
    let mut r: Vec<T> = Vec::with_capacity(v.len());
    let mut i: usize = 0;
    while i < v.len()
        invariant
            i <= v@.len(),
            r@ == v@.take(i as int),
        decreases v@.len() - i,
    {
        r.push(v[i]);
        i = i + 1;
        assert(r@ =~= v@.take(i as int));
    }
    assert(v@.take(v@.len() as int) =~= v@);
    r
}

impl<T: Copy> Tensor<T> {
    /// One stride per axis.
    pub open spec fn wf(&self) -> bool {
        self.shape@.len() == self.strides@.len()
    }

    /// The storage position of a multi-index.
    pub open spec fn flat(&self, idx: Seq<usize>) -> int {
        self.offset + dot(idx, self.strides@)
    }

    /// The multi-index is inside the shape and lands inside the buffer.
    pub open spec fn valid(&self, idx: Seq<usize>) -> bool {
        &&& in_bounds(self.shape@, idx)
        &&& self.flat(idx) < self.data@.len()
    }

    /// The element a multi-index addresses.
    pub open spec fn at(&self, idx: Seq<usize>) -> T {
        self.data@[self.flat(idx)]
    }

    /// Every in-bounds multi-index lands inside the buffer.
    pub open spec fn addressable(&self) -> bool {
        forall|idx: Seq<usize>| in_bounds(self.shape@, idx) ==> #[trigger] self.valid(idx)
    }

    /// Row-major layout from offset zero over a buffer of exactly the
    /// shape's element count, as `new` and `from_data` build it.
    pub open spec fn contiguous(&self) -> bool {
        &&& self.offset == 0
        &&& self.strides@ == row_major_strides(self.shape@)
        &&& self.data@.len() == product(self.shape@)
    }

    pub fn get_offset(&self) -> (r: &usize)
        ensures
            *r == self.offset,
    {
        &self.offset
    }

    /// Moves the starting position; fails unless it lies within the buffer
    /// (one past the end included).
    pub fn set_offset(&mut self, new: usize) -> (r: Result<()>)
        ensures
            r is Err <==> old(self).data@.len() < new,
            r is Err ==> r == Err::<(), TensorError>(TensorError::IndexOutOfBounds) && *final(self) == *old(self),
            r is Ok ==> final(self).offset == new && final(self).data == old(self).data
                && final(self).shape == old(self).shape && final(self).strides == old(self).strides,
    {
        if self.data.len() < new {
            return Err(TensorError::IndexOutOfBounds);
        }
        self.offset = new;
        Ok(())
    }

    pub fn get_data(&self) -> (r: &[T])
        ensures
            r@ == self.data@,
    {
        self.data.as_slice()
    }

    /// Replaces the buffer; fails unless the new one has the same length.
    pub fn set_data(&mut self, new: Vec<T>) -> (r: Result<()>)
        ensures
            r is Err <==> old(self).data@.len() != new@.len(),
            r is Err ==> r == Err::<(), TensorError>(TensorError::DimensionalMismatch) && *final(self) == *old(self),
            r is Ok ==> final(self).data@ == new@ && final(self).offset == old(self).offset
                && final(self).shape == old(self).shape && final(self).strides == old(self).strides,
    {
        if self.data.len() != new.len() {
            return Err(TensorError::DimensionalMismatch);
        }
        self.data = new;
        Ok(())
    }

    pub fn get_shape(&self) -> (r: &[usize])
        ensures
            r@ == self.shape@,
    {
        self.shape.as_slice()
    }

    /// Replaces the shape; fails unless the new one has the same rank.
    pub fn set_shape(&mut self, new: Vec<usize>) -> (r: Result<()>)
        ensures
            r is Err <==> old(self).shape@.len() != new@.len(),
            r is Err ==> r == Err::<(), TensorError>(TensorError::ShapeMismatch) && *final(self) == *old(self),
            r is Ok ==> final(self).shape@ == new@ && final(self).offset == old(self).offset
                && final(self).data == old(self).data && final(self).strides == old(self).strides,
    {
        if self.shape.len() != new.len() {
            return Err(TensorError::ShapeMismatch);
        }
        self.shape = new;
        Ok(())
    }

    pub fn get_strides(&self) -> (r: &[usize])
        ensures
            r@ == self.strides@,
    {
        self.strides.as_slice()
    }

    /// Replaces the strides; fails unless the new ones have the same rank.
    pub fn set_strides(&mut self, new: Vec<usize>) -> (r: Result<()>)
        ensures
            r is Err <==> old(self).strides@.len() != new@.len(),
            r is Err ==> r == Err::<(), TensorError>(TensorError::DimensionalMismatch) && *final(self) == *old(self),
            r is Ok ==> final(self).strides@ == new@ && final(self).offset == old(self).offset
                && final(self).data == old(self).data && final(self).shape == old(self).shape,
    {
        if self.strides.len() != new.len() {
            return Err(TensorError::DimensionalMismatch);
        }
        self.strides = new;
        Ok(())
    }

    /// The storage position of a multi-index: fails unless there is one
    /// index per axis, each below its extent, and the position fits a `usize`.
    pub fn get_index(&self, indices: &[usize]) -> (r: Result<usize>)
        requires
            self.wf(),
        ensures
            r is Ok <==> in_bounds(self.shape@, indices@) && self.flat(indices@) <= usize::MAX,
            r is Ok ==> r->Ok_0 == self.flat(indices@),
            r is Err ==> r->Err_0 == TensorError::IndexOutOfBounds,
    {
        flat_index(self.shape.as_slice(), self.strides.as_slice(), self.offset, indices)
    }

    /// The element at a multi-index; fails unless the index is inside the
    /// shape and lands inside the buffer.
    pub fn get(&self, indices: &[usize]) -> (r: Result<&T>)
        requires
            self.wf(),
        ensures
            r is Ok <==> self.valid(indices@),
            r is Ok ==> *r->Ok_0 == self.at(indices@),
            r is Err ==> r->Err_0 == TensorError::IndexOutOfBounds,
    {
        match self.get_index(indices) {
            Ok(k) => {
                if k < self.data.len() {
                    Ok(&self.data[k])
                } else {
                    Err(TensorError::IndexOutOfBounds)
                }
            },
            Err(_) => {
                let len = self.data.len();
                assert(len == self.data@.len());
                Err(TensorError::IndexOutOfBounds)
            },
        }
    }

    /// A writable reference to the element at a multi-index; fails unless the
    /// index is inside the shape and lands inside the buffer.
    pub fn get_mut(&mut self, indices: &[usize]) -> (r: Result<&mut T>)
        requires
            old(self).wf(),
        ensures
            r is Ok <==> old(self).valid(indices@),
            r is Ok ==> *r->Ok_0 == old(self).at(indices@) && final(self).data@ == old(self).data@.update(old(self).flat(indices@), *final(r->Ok_0)),
            r is Err ==> r->Err_0 == TensorError::IndexOutOfBounds && final(self).data@ == old(self).data@,
            final(self).shape == old(self).shape,
            final(self).strides == old(self).strides,
            final(self).offset == old(self).offset,
    {
        match self.get_index(indices) {
            Ok(k) => {
                if k < self.data.len() {
                    Ok(&mut self.data[k])
                } else {
                    Err(TensorError::IndexOutOfBounds)
                }
            },
            Err(_) => {
                let len = self.data.len();
                assert(len == self.data@.len());
                Err(TensorError::IndexOutOfBounds)
            },
        }
    }

    /// Overwrites the element at a multi-index; fails, changing nothing,
    /// unless the index is inside the shape and lands inside the buffer.
    pub fn set(&mut self, indices: &[usize], new: T) -> (r: Result<()>)
        requires
            old(self).wf(),
        ensures
            r is Ok <==> old(self).valid(indices@),
            r is Ok ==> final(self).data@ == old(self).data@.update(old(self).flat(indices@), new),
            r is Err ==> r->Err_0 == TensorError::IndexOutOfBounds && final(self).data@ == old(self).data@,
            final(self).shape == old(self).shape,
            final(self).strides == old(self).strides,
            final(self).offset == old(self).offset,
    {
        match self.get_index(indices) {
            Ok(k) => {
                if k < self.data.len() {
                    self.data.set(k, new);
                    Ok(())
                } else {
                    Err(TensorError::IndexOutOfBounds)
                }
            },
            Err(_) => {
                let len = self.data.len();
                assert(len == self.data@.len());
                Err(TensorError::IndexOutOfBounds)
            },
        }
    }

    /// A tensor of the given shape with every element equal to `fill`.
    pub fn new(shape: Vec<usize>, fill: T) -> (r: Self)
        requires
            strides_fit(shape@),
        ensures
            r.shape@ == shape@,
            r.contiguous(),
            r.wf(),
            forall|i: int| 0 <= i < r.data@.len() ==> r.data@[i] == fill,
    {
        let total = shape_product(shape.as_slice());
        let strides = compute_strides(shape.as_slice());
        let mut data: Vec<T> = Vec::with_capacity(total);
        let mut i: usize = 0;
        while i < total
            invariant
                i <= total,
                data@.len() == i,
                forall|j: int| 0 <= j < i ==> data@[j] == fill,
            decreases total - i,
        {
            data.push(fill);
            i = i + 1;
        }
        Tensor { data, shape, strides, offset: 0 }
    }

    /// A row-major tensor over `data`; fails unless the shape's element count
    /// equals the data's length.
    pub fn from_data(shape: Vec<usize>, data: Vec<T>) -> (r: Result<Self>)
        requires
            strides_fit(shape@),
        ensures
            r is Err <==> product(shape@) != data@.len(),
            r is Err ==> r->Err_0 == TensorError::ShapeMismatch,
            r is Ok ==> r->Ok_0.data@ == data@ && r->Ok_0.shape@ == shape@ && r->Ok_0.contiguous()
                && r->Ok_0.wf(),
    {
        if shape_product(shape.as_slice()) != data.len() {
            return Err(TensorError::ShapeMismatch);
        }
        let strides = compute_strides(shape.as_slice());
        Ok(Tensor { data, shape, strides, offset: 0 })
    }

    /// The same elements under a new shape with its row-major strides; fails
    /// unless the element count is unchanged. The tensor must be laid out
    /// contiguously from offset zero.
    pub fn reshape(&self, new_shape: Vec<usize>) -> (r: Result<Self>)
        requires
            self.contiguous(),
            strides_fit(new_shape@),
        ensures
            r is Err <==> product(new_shape@) != self.data@.len(),
            r is Err ==> r->Err_0 == TensorError::ShapeMismatch,
            r is Ok ==> r->Ok_0.data@ == self.data@ && r->Ok_0.shape@ == new_shape@
                && r->Ok_0.contiguous() && r->Ok_0.wf(),
    {
        if self.data.len() != shape_product(new_shape.as_slice()) {
            return Err(TensorError::ShapeMismatch);
        }
        let strides = compute_strides(new_shape.as_slice());
        Ok(Tensor { data: copy_vec(&self.data), shape: new_shape, strides, offset: 0 })
    }

    /// Fails with a shape mismatch unless both tensors have the same shape.
    pub fn assert_same_shape(&self, other: &Self) -> (r: Result<()>)
        ensures
            r is Ok <==> self.shape@ == other.shape@,
            r is Err ==> r->Err_0 == TensorError::ShapeMismatch,
    {
        if same_shape(self.shape.as_slice(), other.shape.as_slice()) {
            Ok(())
        } else {
            Err(TensorError::ShapeMismatch)
        }
    }
}

} // verus!
