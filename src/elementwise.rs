use vstd::prelude::*;

use crate::error::{Result, TensorError};
use crate::indexing::{
    compute_strides, dot, in_bounds, lemma_dot_nonneg, lemma_row_major_position, row_major_strides, shape_product,
    strides_fit, unravel, unravel_index,
};
use crate::scalar::Scalar;
use crate::tensor::Tensor;

verus! {

/// The four elementwise arithmetic operations.
#[derive(Clone, Copy, Debug)]
pub enum BinOp {
    Add,
    Sub,
    Mul,
    Div,
}

/// The operation is defined on the two operands.
pub open spec fn op_ok<T: Scalar>(op: BinOp, x: T, y: T) -> bool {
    match op {
        BinOp::Add => T::add_ok(x, y),
        BinOp::Sub => T::sub_ok(x, y),
        BinOp::Mul => T::mul_ok(x, y),
        BinOp::Div => T::div_ok(x, y),
    }
}

/// The value of the operation on the two operands.
pub open spec fn op_spec<T: Scalar>(op: BinOp, x: T, y: T) -> T {
    match op {
        BinOp::Add => T::add_spec(x, y),
        BinOp::Sub => T::sub_spec(x, y),
        BinOp::Mul => T::mul_spec(x, y),
        BinOp::Div => T::div_spec(x, y),
    }
}

/// The operation is defined at every multi-index that both operands can
/// address.
pub open spec fn defined_everywhere<T: Scalar>(op: BinOp, a: Tensor<T>, b: Tensor<T>) -> bool {
    forall|idx: Seq<usize>|
        a.valid(idx) && b.valid(idx) ==> #[trigger] op_ok(op, a.at(idx), b.at(idx))
}

/// Some in-bounds multi-index of the (common) shape cannot be addressed in
/// one of the operands.
pub open spec fn some_unaddressable<T: Copy>(a: Tensor<T>, b: Tensor<T>) -> bool {
    exists|idx: Seq<usize>| in_bounds(a.shape@, idx) && !(a.valid(idx) && b.valid(idx))
}

/// The outcome of applying `op` elementwise to `a` and `b`: a shape mismatch
/// when the shapes differ; an index error exactly when some in-bounds index
/// cannot be addressed in an operand; otherwise a fresh row-major tensor of the
/// same shape whose element at every index `I` is `op(a[I], b[I])`.
pub open spec fn elementwise_outcome<T: Scalar>(
    op: BinOp,
    a: Tensor<T>,
    b: Tensor<T>,
    r: Result<Tensor<T>>,
) -> bool {
    &&& a.shape@ != b.shape@ ==> r == Err::<Tensor<T>, TensorError>(TensorError::ShapeMismatch)
    &&& a.shape@ == b.shape@ ==> (r is Err <==> some_unaddressable(a, b))
    &&& r is Err ==> r->Err_0 == TensorError::ShapeMismatch || r->Err_0
        == TensorError::IndexOutOfBounds
    &&& r is Ok ==> {
        let t = r->Ok_0;
        &&& t.shape@ == a.shape@
        &&& t.wf()
        &&& t.contiguous()
        &&& forall|idx: Seq<usize>| #[trigger]
            in_bounds(t.shape@, idx) ==> t.valid(idx) && a.valid(idx) && b.valid(idx) && t.at(idx)
                == op_spec(op, a.at(idx), b.at(idx))
    }
}

fn apply<T: Scalar>(op: BinOp, x: T, y: T) -> (r: T)
    requires
        op_ok(op, x, y),
    ensures
        r == op_spec(op, x, y),
{
    match op {
        BinOp::Add => T::plus(x, y),
        BinOp::Sub => T::minus(x, y),
        BinOp::Mul => T::times(x, y),
        BinOp::Div => T::divide(x, y),
    }
}

impl<T: Scalar> Tensor<T> {
    /// Applies `op` to the two operands at every multi-index, reading each
    /// operand through its own shape, strides and offset.
    pub fn zip_with(&self, rhs: &Self, op: BinOp) -> (r: Result<Self>)
        requires
            self.wf(),
            rhs.wf(),
            strides_fit(self.shape@),
            defined_everywhere(op, *self, *rhs),
        ensures
            elementwise_outcome(op, *self, *rhs, r),
    {
        if self.assert_same_shape(rhs).is_err() {
            return Err(TensorError::ShapeMismatch);
        }
        let ghost shape = self.shape@;
        let total = shape_product(self.shape.as_slice());
        let strides = compute_strides(self.shape.as_slice());
        let mut data: Vec<T> = Vec::with_capacity(total);
        let mut p: usize = 0;
        while p < total
            invariant
                p <= total,
                total == crate::indexing::product(shape),
                shape == self.shape@,
                shape == rhs.shape@,
                self.wf(),
                rhs.wf(),
                strides_fit(shape),
                strides@ == row_major_strides(shape),
                defined_everywhere(op, *self, *rhs),
                data@.len() == p,
                forall|q: int|
                    0 <= q < p ==> self.valid(#[trigger] unravel(shape, q)) && rhs.valid(
                        unravel(shape, q),
                    ) && data@[q] == op_spec(op, self.at(unravel(shape, q)), rhs.at(unravel(shape, q))),
            decreases total - p,
        {
            let idx = unravel_index(self.shape.as_slice(), strides.as_slice(), p);
            let x = match self.get(idx.as_slice()) {
                Ok(v) => *v,
                Err(_) => {
                    return Err(TensorError::IndexOutOfBounds);
                },
            };
            let y = match rhs.get(idx.as_slice()) {
                Ok(v) => *v,
                Err(_) => {
                    return Err(TensorError::IndexOutOfBounds);
                },
            };
            assert(op_ok(op, self.at(idx@), rhs.at(idx@)));
            data.push(apply(op, x, y));
            p = p + 1;
        }
        let r = Tensor { data, shape: crate::tensor::copy_vec(&self.shape), strides, offset: 0 };
        assert forall|idx: Seq<usize>| #[trigger] in_bounds(r.shape@, idx) implies r.valid(idx)
            && self.valid(idx) && rhs.valid(idx) && r.at(idx) == op_spec(
            op,
            self.at(idx),
            rhs.at(idx),
        ) by {
            lemma_row_major_position(shape, idx);
            lemma_dot_nonneg(idx, strides@);
            let q = dot(idx, strides@);
            assert(unravel(shape, q) == idx);
            assert(r.flat(idx) == q);
        }
        assert forall|idx: Seq<usize>| in_bounds(self.shape@, idx) implies self.valid(idx)
            && rhs.valid(idx) by {
            assert(in_bounds(r.shape@, idx));
        }
        assert(!some_unaddressable(*self, *rhs));
        Ok(r)
    }

    /// The elementwise sum of two tensors of the same shape.
    pub fn elementwise_add(&self, rhs: &Self) -> (r: Result<Self>)
        requires
            self.wf(),
            rhs.wf(),
            strides_fit(self.shape@),
            defined_everywhere(BinOp::Add, *self, *rhs),
        ensures
            elementwise_outcome(BinOp::Add, *self, *rhs, r),
    {
        self.zip_with(rhs, BinOp::Add)
    }

    /// The elementwise difference of two tensors of the same shape.
    pub fn elementwise_sub(&self, rhs: &Self) -> (r: Result<Self>)
        requires
            self.wf(),
            rhs.wf(),
            strides_fit(self.shape@),
            defined_everywhere(BinOp::Sub, *self, *rhs),
        ensures
            elementwise_outcome(BinOp::Sub, *self, *rhs, r),
    {
        self.zip_with(rhs, BinOp::Sub)
    }

    /// The elementwise product of two tensors of the same shape.
    pub fn elementwise_mul(&self, rhs: &Self) -> (r: Result<Self>)
        requires
            self.wf(),
            rhs.wf(),
            strides_fit(self.shape@),
            defined_everywhere(BinOp::Mul, *self, *rhs),
        ensures
            elementwise_outcome(BinOp::Mul, *self, *rhs, r),
    {
        self.zip_with(rhs, BinOp::Mul)
    }

    /// The elementwise quotient of two tensors of the same shape.
    pub fn elementwise_div(&self, rhs: &Self) -> (r: Result<Self>)
        requires
            self.wf(),
            rhs.wf(),
            strides_fit(self.shape@),
            defined_everywhere(BinOp::Div, *self, *rhs),
        ensures
            elementwise_outcome(BinOp::Div, *self, *rhs, r),
    {
        self.zip_with(rhs, BinOp::Div)
    }
}

} // verus!
