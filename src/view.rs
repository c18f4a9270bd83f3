use std::ops::Range;

use vstd::prelude::*;

use crate::error::{Result, TensorError};
use crate::indexing::{dot, flat_index, in_bounds};
use crate::tensor::{copy_vec, Tensor};

verus! {

/// A read-only view: a shape / stride / offset descriptor over a buffer
/// borrowed from a tensor (or from another view).
pub struct TensorView<'data, T> {
    data: &'data [T],
    shape: Vec<usize>,
    strides: Vec<usize>,
    offset: usize,
}

/// An exclusive-write view over a buffer borrowed from a tensor (or from
/// another such view).
pub struct TensorViewMut<'data, T> {
    data: &'data mut [T],
    shape: Vec<usize>,
    strides: Vec<usize>,
    offset: usize,
}

/// The extent of `start..end`: zero when the range is empty.
pub open spec fn range_len(start: usize, end: usize) -> usize {
    if start <= end {
        (end - start) as usize
    } else {
        0
    }
}

fn extent_of(range: &Range<usize>) -> (r: usize)
    ensures
        r == range_len(range.start, range.end),
{
    if range.start <= range.end {
        range.end - range.start
    } else {
        0
    }
}

impl<'data, T> TensorView<'data, T> {
    pub closed spec fn data_spec(&self) -> Seq<T> {
        self.data@
    }

    pub closed spec fn shape_spec(&self) -> Seq<usize> {
        self.shape@
    }

    pub closed spec fn strides_spec(&self) -> Seq<usize> {
        self.strides@
    }

    pub closed spec fn offset_spec(&self) -> usize {
        self.offset
    }

    /// One stride per axis.
    pub open spec fn wf(&self) -> bool {
        self.shape_spec().len() == self.strides_spec().len()
    }

    /// The storage position of a multi-index.
    pub open spec fn flat(&self, idx: Seq<usize>) -> int {
        self.offset_spec() + dot(idx, self.strides_spec())
    }

    /// The multi-index is inside the shape and lands inside the buffer.
    pub open spec fn valid(&self, idx: Seq<usize>) -> bool {
        &&& in_bounds(self.shape_spec(), idx)
        &&& self.flat(idx) < self.data_spec().len()
    }

    /// The element at an in-bounds multi-index, read through the offset and
    /// strides; fails with an index error otherwise.
    pub fn get(&self, indices: &[usize]) -> (r: Result<&T>)
        requires
            self.wf(),
        ensures
            r is Ok <==> self.valid(indices@),
            r is Ok ==> *r->Ok_0 == self.data_spec()[self.flat(indices@)],
            r is Err ==> r->Err_0 == TensorError::IndexOutOfBounds,
    {
        let len = self.data.len();
        match flat_index(self.shape.as_slice(), self.strides.as_slice(), self.offset, indices) {
            Ok(k) => {
                if k < len {
                    Ok(&self.data[k])
                } else {
                    Err(TensorError::IndexOutOfBounds)
                }
            },
            Err(_) => Err(TensorError::IndexOutOfBounds),
        }
    }

    pub fn get_data(&self) -> (r: &'data [T])
        ensures
            r@ == self.data_spec(),
    {
        self.data
    }

    pub fn get_shape(&self) -> (r: &[usize])
        ensures
            r@ == self.shape_spec(),
    {
        self.shape.as_slice()
    }

    pub fn get_strides(&self) -> (r: &[usize])
        ensures
            r@ == self.strides_spec(),
    {
        self.strides.as_slice()
    }

    pub fn get_offset(&self) -> (r: usize)
        ensures
            r == self.offset_spec(),
    {
        self.offset
    }

    /// A view of the same buffer and offset under a caller-supplied shape and
    /// strides, taken as they are.
    pub fn reshape(&self, new_shape: Vec<usize>, new_strides: Vec<usize>) -> (r: TensorView<'data, T>)
        ensures
            r.data_spec() == self.data_spec(),
            r.shape_spec() == new_shape@,
            r.strides_spec() == new_strides@,
            r.offset_spec() == self.offset_spec(),
    {
        TensorView { data: self.data, shape: new_shape, strides: new_strides, offset: self.offset }
    }

    /// The sub-view that keeps indices `range` of axis `axis`: that extent
    /// becomes the range's length and the offset advances by the axis stride
    /// times the range's start. The buffer is shared, not copied. Fails with an
    /// index error when the axis does not exist or the new offset does not fit
    /// a `usize`.
    pub fn slice(&self, axis: usize, range: Range<usize>) -> (r: Result<Self>)
        requires
            self.wf(),
        ensures
            r is Err <==> axis >= self.shape_spec().len() || self.offset_spec() + self.strides_spec()[axis as int]
                * range.start > usize::MAX,
            r is Err ==> r->Err_0 == TensorError::IndexOutOfBounds,
            r is Ok ==> r->Ok_0.data_spec() == self.data_spec() && r->Ok_0.shape_spec() == self.shape_spec().update(
                axis as int,
                range_len(range.start, range.end),
            ) && r->Ok_0.strides_spec() == self.strides_spec() && r->Ok_0.offset_spec() == self.offset_spec()
                + self.strides_spec()[axis as int] * range.start && r->Ok_0.wf(),
    {
        if axis >= self.shape.len() {
            return Err(TensorError::IndexOutOfBounds);
        }
        let advance = match self.strides[axis].checked_mul(range.start) {
            Some(v) => v,
            None => {
                proof {
                    assert(self.strides@[axis as int] * range.start >= 0) by (nonlinear_arith);
                }
                return Err(TensorError::IndexOutOfBounds);
            },
        };
        let new_offset = match self.offset.checked_add(advance) {
            Some(v) => v,
            None => {
                return Err(TensorError::IndexOutOfBounds);
            },
        };
        let mut new_shape = copy_vec(self.shape.as_slice());
        new_shape.set(axis, extent_of(&range));
        Ok(TensorView {
            data: self.data,
            shape: new_shape,
            strides: copy_vec(self.strides.as_slice()),
            offset: new_offset,
        })
    }
}

impl<T: Copy> Tensor<T> {
    /// A read-only view of the whole tensor with its shape, strides and
    /// offset.
    pub fn view<'a>(&'a self) -> (r: TensorView<'a, T>)
        ensures
            r.data_spec() == self.data@,
            r.shape_spec() == self.shape@,
            r.strides_spec() == self.strides@,
            r.offset_spec() == self.offset,
    {
        TensorView {
            data: self.data.as_slice(),
            shape: copy_vec(self.shape.as_slice()),
            strides: copy_vec(self.strides.as_slice()),
            offset: self.offset,
        }
    }
}

impl<'data, T> TensorViewMut<'data, T> {
    pub closed spec fn data_spec(&self) -> Seq<T> {
        self.data@
    }

    pub closed spec fn shape_spec(&self) -> Seq<usize> {
        self.shape@
    }

    pub closed spec fn strides_spec(&self) -> Seq<usize> {
        self.strides@
    }

    pub closed spec fn offset_spec(&self) -> usize {
        self.offset
    }

    /// One stride per axis.
    pub open spec fn wf(&self) -> bool {
        self.shape_spec().len() == self.strides_spec().len()
    }

    /// The storage position of a multi-index.
    pub open spec fn flat(&self, idx: Seq<usize>) -> int {
        self.offset_spec() + dot(idx, self.strides_spec())
    }

    /// The multi-index is inside the shape and lands inside the buffer.
    pub open spec fn valid(&self, idx: Seq<usize>) -> bool {
        &&& in_bounds(self.shape_spec(), idx)
        &&& self.flat(idx) < self.data_spec().len()
    }

    /// The exclusive sub-view that keeps indices `range` of axis `axis`, as
    /// `TensorView::slice` does; this view stays borrowed while it lives.
    pub fn slice_mut(&'data mut self, axis: usize, range: Range<usize>) -> (r: Result<
        TensorViewMut<'data, T>,
    >)
        requires
            old(self).wf(),
        ensures
            r is Err <==> axis >= old(self).shape_spec().len() || old(self).offset_spec()
                + old(self).strides_spec()[axis as int] * range.start > usize::MAX,
            r is Err ==> r->Err_0 == TensorError::IndexOutOfBounds,
            r is Ok ==> r->Ok_0.data_spec() == old(self).data_spec() && r->Ok_0.shape_spec()
                == old(self).shape_spec().update(axis as int, range_len(range.start, range.end))
                && r->Ok_0.strides_spec() == old(self).strides_spec() && r->Ok_0.offset_spec()
                == old(self).offset_spec() + old(self).strides_spec()[axis as int] * range.start
                && r->Ok_0.wf(),
    {
        if axis >= self.shape.len() {
            return Err(TensorError::IndexOutOfBounds);
        }
        let advance = match self.strides[axis].checked_mul(range.start) {
            Some(v) => v,
            None => {
                proof {
                    assert(self.strides@[axis as int] * range.start >= 0) by (nonlinear_arith);
                }
                return Err(TensorError::IndexOutOfBounds);
            },
        };
        let new_offset = match self.offset.checked_add(advance) {
            Some(v) => v,
            None => {
                return Err(TensorError::IndexOutOfBounds);
            },
        };
        let mut new_shape = copy_vec(self.shape.as_slice());
        new_shape.set(axis, extent_of(&range));
        let new_strides = copy_vec(self.strides.as_slice());
        Ok(TensorViewMut { data: &mut *self.data, shape: new_shape, strides: new_strides, offset: new_offset })
    }

    /// A writable reference to the element at an in-bounds multi-index, read
    /// through the offset and strides; fails with an index error otherwise.
    pub fn get_mut(&mut self, indices: &[usize]) -> (r: Result<&mut T>)
        requires
            old(self).wf(),
        ensures
            r is Ok <==> old(self).valid(indices@),
            r is Ok ==> *r->Ok_0 == old(self).data_spec()[old(self).flat(indices@)]
                && final(self).data_spec() == old(self).data_spec().update(old(self).flat(indices@), *final(r->Ok_0)),
            r is Err ==> r->Err_0 == TensorError::IndexOutOfBounds && final(self).data_spec() == old(self).data_spec(),
            final(self).shape_spec() == old(self).shape_spec(),
            final(self).strides_spec() == old(self).strides_spec(),
            final(self).offset_spec() == old(self).offset_spec(),
    {
        let len = self.data.len();
        match flat_index(self.shape.as_slice(), self.strides.as_slice(), self.offset, indices) {
            Ok(k) => {
                if k < len {
                    Ok(&mut self.data[k])
                } else {
                    Err(TensorError::IndexOutOfBounds)
                }
            },
            Err(_) => Err(TensorError::IndexOutOfBounds),
        }
    }

    pub fn data(&'data self) -> (r: &'data [T])
        ensures
            r@ == self.data_spec(),
    {
        self.data
    }

    pub fn data_mut(&'data mut self) -> (r: &'data mut [T])
        ensures
            r@ == old(self).data_spec(),
            final(self).data_spec() == final(r)@,
            final(self).shape_spec() == old(self).shape_spec(),
            final(self).strides_spec() == old(self).strides_spec(),
            final(self).offset_spec() == old(self).offset_spec(),
    {
        &mut *self.data
    }

    pub fn shape(&self) -> (r: &[usize])
        ensures
            r@ == self.shape_spec(),
    {
        self.shape.as_slice()
    }

    pub fn strides(&self) -> (r: &[usize])
        ensures
            r@ == self.strides_spec(),
    {
        self.strides.as_slice()
    }
}

impl<T: Copy> Tensor<T> {
    /// An exclusive-write view of the whole tensor with its shape, strides
    /// and offset; the tensor stays borrowed while the view lives.
    pub fn view_mut<'a>(&'a mut self) -> (r: TensorViewMut<'a, T>)
        ensures
            r.data_spec() == old(self).data@,
            r.shape_spec() == old(self).shape@,
            r.strides_spec() == old(self).strides@,
            r.offset_spec() == old(self).offset,
            final(self).shape == old(self).shape,
            final(self).strides == old(self).strides,
            final(self).offset == old(self).offset,
    {
        let shape = copy_vec(self.shape.as_slice());
        let strides = copy_vec(self.strides.as_slice());
        let offset = self.offset;
        TensorViewMut { data: self.data.as_mut_slice(), shape, strides, offset }
    }
}

} // verus!
