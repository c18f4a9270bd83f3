use vstd::prelude::*;

use crate::indexing::lemma_dot_nonneg;
use crate::tensor::Tensor;
use crate::transforms::{is_permutation, permuted, swapped};

verus! {

/// Reading a multi-index right after `set` wrote `v` there yields `v`; reading
/// any other index that addresses a different storage position yields what it
/// yielded before the write.
pub proof fn lemma_get_after_set<T: Copy>(
    before: Tensor<T>,
    after: Tensor<T>,
    idx: Seq<usize>,
    other: Seq<usize>,
    v: T,
)
    requires
        before.wf(),
        before.valid(idx),
        after.data@ == before.data@.update(before.flat(idx), v),
        after.shape == before.shape,
        after.strides == before.strides,
        after.offset == before.offset,
    ensures
        after.wf(),
        after.valid(idx),
        after.at(idx) == v,
        before.valid(other) && before.flat(other) != before.flat(idx) ==> after.valid(other)
            && after.at(other) == before.at(other),
{
    lemma_dot_nonneg(idx, before.strides@);
    lemma_dot_nonneg(other, before.strides@);
}

/// Permuting the axes by `dims` and then by an inverse `inv` of `dims`
/// (`dims[inv[j]] == j` for every axis `j`) restores the starting shape,
/// strides, offset and data; `inv` is then itself a permutation.
pub proof fn lemma_permute_inverse<T: Copy>(
    t: Tensor<T>,
    p: Tensor<T>,
    q: Tensor<T>,
    dims: Seq<usize>,
    inv: Seq<usize>,
)
    requires
        t.wf(),
        dims.len() == t.shape@.len(),
        is_permutation(dims),
        inv.len() == dims.len(),
        forall|j: int| 0 <= j < inv.len() ==> #[trigger] inv[j] < inv.len() && dims[inv[j] as int] == j,
        p.shape@ == permuted(t.shape@, dims),
        p.strides@ == permuted(t.strides@, dims),
        p.data@ == t.data@,
        p.offset == t.offset,
        q.shape@ == permuted(p.shape@, inv),
        q.strides@ == permuted(p.strides@, inv),
        q.data@ == p.data@,
        q.offset == p.offset,
    ensures
        is_permutation(inv),
        q.shape@ == t.shape@,
        q.strides@ == t.strides@,
        q.data@ == t.data@,
        q.offset == t.offset,
{
    assert forall|i: int, j: int|
        0 <= i < inv.len() && 0 <= j < inv.len() && i != j implies #[trigger] inv[i] != #[trigger] inv[j] by {
        assert(dims[inv[i] as int] == i);
        assert(dims[inv[j] as int] == j);
    }
    assert(q.shape@ =~= t.shape@);
    assert(q.strides@ =~= t.strides@);
}

/// Exchanging the same two axes twice restores the starting shape and
/// strides (and keeps the data and offset).
pub proof fn lemma_transpose_involution<T: Copy>(
    t: Tensor<T>,
    u: Tensor<T>,
    w: Tensor<T>,
    dim1: int,
    dim2: int,
)
    requires
        t.wf(),
        0 <= dim1 < t.shape@.len(),
        0 <= dim2 < t.shape@.len(),
        u.shape@ == swapped(t.shape@, dim1, dim2),
        u.strides@ == swapped(t.strides@, dim1, dim2),
        u.data@ == t.data@,
        u.offset == t.offset,
        w.shape@ == swapped(u.shape@, dim1, dim2),
        w.strides@ == swapped(u.strides@, dim1, dim2),
        w.data@ == u.data@,
        w.offset == u.offset,
    ensures
        w.shape@ == t.shape@,
        w.strides@ == t.strides@,
        w.data@ == t.data@,
        w.offset == t.offset,
{
    assert(w.shape@ =~= t.shape@);
    assert(w.strides@ =~= t.strides@);
}

} // verus!
