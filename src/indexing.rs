use vstd::arithmetic::div_mod::lemma_fundamental_div_mod_converse;
use vstd::prelude::*;

use crate::error::{Result, TensorError};

verus! {

/// The number of elements of a shape: the product of its extents.
pub open spec fn product(shape: Seq<usize>) -> int
    decreases shape.len(),
{
    if shape.len() == 0 {
        1
    } else {
        shape[0] * product(shape.skip(1))
    }
}

/// Every suffix product of the shape (hence every row-major stride and the
/// element count) fits in a `usize`.
pub open spec fn strides_fit(shape: Seq<usize>) -> bool {
    forall|i: int| 0 <= i <= shape.len() ==> #[trigger] product(shape.skip(i)) <= usize::MAX
}

/// The canonical row-major strides of a shape: the stride of an axis is the
/// product of the extents of the axes after it.
pub open spec fn row_major_strides(shape: Seq<usize>) -> Seq<usize> {
    Seq::new(shape.len(), |i: int| product(shape.skip(i + 1)) as usize)
}

/// The multi-index names a position inside the shape: one index per axis,
/// each below its extent.
pub open spec fn in_bounds(shape: Seq<usize>, idx: Seq<usize>) -> bool {
    &&& idx.len() == shape.len()
    &&& forall|i: int| 0 <= i < idx.len() ==> #[trigger] idx[i] < shape[i]
}

/// The linear displacement of a multi-index: the sum of index times stride.
pub open spec fn dot(idx: Seq<usize>, strides: Seq<usize>) -> int
    decreases idx.len(),
{
    if idx.len() == 0 {
        0
    } else {
        idx[0] * strides[0] + dot(idx.skip(1), strides.skip(1))
    }
}

pub proof fn lemma_product_nonneg(shape: Seq<usize>)
    ensures
        product(shape) >= 0,
    decreases shape.len(),
{
    if shape.len() > 0 {
        lemma_product_nonneg(shape.skip(1));
        assert(shape[0] * product(shape.skip(1)) >= 0) by (nonlinear_arith)
            requires
                product(shape.skip(1)) >= 0,
        ;
    }
}

pub proof fn lemma_dot_nonneg(idx: Seq<usize>, strides: Seq<usize>)
    ensures
        dot(idx, strides) >= 0,
    decreases idx.len(),
{
    if idx.len() > 0 {
        lemma_dot_nonneg(idx.skip(1), strides.skip(1));
        assert(idx[0] * strides[0] >= 0) by (nonlinear_arith);
    }
}

/// The canonical row-major strides of `shape`.
pub fn compute_strides(shape: &[usize]) -> (strides: Vec<usize>)
    requires
        strides_fit(shape@),
    ensures
        strides@ == row_major_strides(shape@),
{
    let n = shape.len();
    let mut strides: Vec<usize> = Vec::with_capacity(n);
    let mut k: usize = 0;
    while k < n
        invariant
            k <= n,
            n == shape@.len(),
            strides@.len() == k,
            forall|j: int| 0 <= j < k ==> strides@[j] == 1usize,
        decreases n - k,
    {
        strides.push(1);
        k = k + 1;
    }
    proof {
        assert(shape@.skip(n as int) =~= Seq::<usize>::empty());
        assert(product(shape@.skip(n as int)) == 1);
    }
    let mut i: usize = n;
    assert forall|j: int| 0 <= j && i - 1 <= j < n implies strides@[j] as int == product(
        shape@.skip(j + 1),
    ) by {
        assert(j + 1 == n);
    }
    while i > 1
        invariant
            i <= n,
            n > 0 ==> i >= 1,
            n == shape@.len(),
            strides@.len() == n,
            strides_fit(shape@),
            forall|j: int| 0 <= j && i - 1 <= j < n ==> strides@[j] as int == product(shape@.skip(j + 1)),
        decreases i,
    {
        let j = i - 2;
        proof {
            assert(shape@.skip(j + 1).skip(1) =~= shape@.skip(j + 2));
            assert(product(shape@.skip(j + 1)) == shape@[j + 1] * product(shape@.skip(j + 2)));
            assert(product(shape@.skip(j + 1)) <= usize::MAX);
            assert(strides@[j + 1] as int == product(shape@.skip(j + 2)));
            assert(strides@[j + 1] * shape@[j + 1] == shape@[j + 1] * product(shape@.skip(j + 2)))
                by (nonlinear_arith)
                requires
                    strides@[j + 1] as int == product(shape@.skip(j + 2)),
            ;
        }
        strides.set(j, strides[j + 1] * shape[j + 1]);
        i = i - 1;
    }
    assert(strides@ =~= row_major_strides(shape@));
    strides
}

/// Dropping leading axes can only shrink the displacement.
pub proof fn lemma_dot_suffix_le(idx: Seq<usize>, strides: Seq<usize>, j: int)
    requires
        0 <= j <= idx.len(),
        idx.len() == strides.len(),
    ensures
        dot(idx.skip(j), strides.skip(j)) <= dot(idx, strides),
    decreases j,
{
    if j > 0 {
        lemma_dot_nonneg(idx.skip(1), strides.skip(1));
        assert(idx[0] * strides[0] >= 0) by (nonlinear_arith);
        lemma_dot_suffix_le(idx.skip(1), strides.skip(1), j - 1);
        assert(idx.skip(1).skip(j - 1) =~= idx.skip(j));
        assert(strides.skip(1).skip(j - 1) =~= strides.skip(j));
    } else {
        assert(idx.skip(0) =~= idx);
        assert(strides.skip(0) =~= strides);
    }
}

/// The number of elements of `shape`.
pub fn shape_product(shape: &[usize]) -> (r: usize)
    requires
        strides_fit(shape@),
    ensures
        r == product(shape@),
{
    let n = shape.len();
    let mut acc: usize = 1;
    let mut i: usize = n;
    assert(shape@.skip(n as int) =~= Seq::<usize>::empty());
    while i > 0
        invariant
            i <= n,
            n == shape@.len(),
            strides_fit(shape@),
            acc == product(shape@.skip(i as int)),
        decreases i,
    {
        proof {
            assert(shape@.skip(i - 1).skip(1) =~= shape@.skip(i as int));
            assert(product(shape@.skip(i - 1)) <= usize::MAX);
            assert(product(shape@.skip(i - 1)) == shape@[i - 1] * acc);
        }
        acc = shape[i - 1] * acc;
        i = i - 1;
    }
    assert(shape@.skip(0) =~= shape@);
    acc
}

/// Whether two shapes are identical.
pub fn same_shape(a: &[usize], b: &[usize]) -> (r: bool)
    ensures
        r == (a@ == b@),
{
    if a.len() != b.len() {
        return false;
    }
    let mut i: usize = 0;
    while i < a.len()
        invariant
            i <= a@.len(),
            a@.len() == b@.len(),
            forall|j: int| 0 <= j < i ==> a@[j] == b@[j],
        decreases a@.len() - i,
    {
        if a[i] != b[i] {
            return false;
        }
        i = i + 1;
    }
    assert(a@ =~= b@);
    true
}

/// The multi-index at row-major position `p` of a shape: the inverse of the
/// displacement under the row-major strides.
pub open spec fn unravel(shape: Seq<usize>, p: int) -> Seq<usize>
    decreases shape.len(),
{
    if shape.len() == 0 {
        Seq::<usize>::empty()
    } else {
        let inner = product(shape.skip(1));
        seq![(p / inner) as usize] + unravel(shape.skip(1), p % inner)
    }
}

proof fn lemma_strides_fit_skip(shape: Seq<usize>)
    requires
        shape.len() > 0,
        strides_fit(shape),
    ensures
        strides_fit(shape.skip(1)),
        row_major_strides(shape).skip(1) == row_major_strides(shape.skip(1)),
        row_major_strides(shape)[0] == product(shape.skip(1)),
{
    assert forall|i: int| 0 <= i <= shape.skip(1).len() implies #[trigger] product(
        shape.skip(1).skip(i),
    ) <= usize::MAX by {
        assert(shape.skip(1).skip(i) =~= shape.skip(i + 1));
    }
    assert forall|i: int| 0 <= i < shape.len() - 1 implies #[trigger] row_major_strides(shape).skip(
        1,
    )[i] == row_major_strides(shape.skip(1))[i] by {
        assert(shape.skip(i + 2) =~= shape.skip(1).skip(i + 1));
    }
    assert(row_major_strides(shape).skip(1) =~= row_major_strides(shape.skip(1)));
    assert(product(shape.skip(1)) <= usize::MAX);
    lemma_product_nonneg(shape.skip(1));
}

/// Each in-bounds multi-index sits at a row-major position below the element
/// count, and unravelling that position gives the multi-index back.
pub proof fn lemma_row_major_position(shape: Seq<usize>, idx: Seq<usize>)
    requires
        strides_fit(shape),
        in_bounds(shape, idx),
    ensures
        dot(idx, row_major_strides(shape)) < product(shape),
        unravel(shape, dot(idx, row_major_strides(shape))) == idx,
    decreases shape.len(),
{
    if shape.len() > 0 {
        let s1 = shape.skip(1);
        let j = idx.skip(1);
        lemma_strides_fit_skip(shape);
        lemma_row_major_position(s1, j);
        let inner = product(s1);
        let d1 = dot(j, row_major_strides(s1));
        let x = idx[0] as int;
        lemma_dot_nonneg(j, row_major_strides(s1));
        assert(row_major_strides(shape).skip(1) == row_major_strides(s1));
        assert(dot(idx, row_major_strides(shape)) == x * inner + d1);
        assert(x * inner + d1 < shape[0] * inner) by (nonlinear_arith)
            requires
                0 <= d1 < inner,
                0 <= x < shape[0],
        ;
        lemma_fundamental_div_mod_converse(x * inner + d1, inner, x, d1);
        assert(unravel(shape, x * inner + d1) =~= idx);
    }
}

/// Unravelling a position below the element count gives an in-bounds
/// multi-index.
pub proof fn lemma_unravel_in_bounds(shape: Seq<usize>, p: int)
    requires
        strides_fit(shape),
        0 <= p < product(shape),
    ensures
        in_bounds(shape, unravel(shape, p)),
    decreases shape.len(),
{
    if shape.len() > 0 {
        let s1 = shape.skip(1);
        lemma_strides_fit_skip(shape);
        let inner = product(s1);
        assert(inner > 0) by (nonlinear_arith)
            requires
                inner >= 0,
                shape[0] * inner > p,
                p >= 0,
        ;
        let q = p / inner;
        let r = p % inner;
        assert(q < shape[0]) by (nonlinear_arith)
            requires
                inner > 0,
                p < shape[0] * inner,
                q == p / inner,
                p >= 0,
        ;
        assert(0 <= q) by (nonlinear_arith)
            requires
                inner > 0,
                q == p / inner,
                p >= 0,
        ;
        lemma_unravel_in_bounds(s1, r);
        let u = unravel(shape, p);
        assert(u[0] == q);
        assert(u.skip(1) =~= unravel(s1, r));
        assert forall|i: int| 0 <= i < u.len() implies #[trigger] u[i] < shape[i] by {
            if i > 0 {
                assert(u[i] == u.skip(1)[i - 1]);
            }
        }
    }
}

/// The multi-index at row-major position `p` of `shape`, whose row-major
/// strides are `strides`.
pub fn unravel_index(shape: &[usize], strides: &[usize], p: usize) -> (idx: Vec<usize>)
    requires
        strides_fit(shape@),
        strides@ == row_major_strides(shape@),
        p < product(shape@),
    ensures
        idx@ == unravel(shape@, p as int),
        in_bounds(shape@, idx@),
{
    proof {
        lemma_unravel_in_bounds(shape@, p as int);
        assert(shape@.skip(0) =~= shape@);
    }
    let n = shape.len();
    let mut idx: Vec<usize> = Vec::with_capacity(n);
    let mut rem: usize = p;
    let mut k: usize = 0;
    while k < n
        invariant
            k <= n,
            n == shape@.len(),
            strides@ == row_major_strides(shape@),
            strides_fit(shape@),
            rem < product(shape@.skip(k as int)),
            unravel(shape@, p as int) == idx@ + unravel(shape@.skip(k as int), rem as int),
        decreases n - k,
    {
        let ghost sk = shape@.skip(k as int);
        proof {
            assert(sk.skip(1) =~= shape@.skip(k + 1));
            lemma_product_nonneg(sk.skip(1));
            assert(product(sk) == sk[0] * product(sk.skip(1)));
            assert(product(sk.skip(1)) > 0) by (nonlinear_arith)
                requires
                    product(sk.skip(1)) >= 0,
                    sk[0] * product(sk.skip(1)) > rem,
                    rem >= 0,
            ;
            assert(strides@[k as int] == product(sk.skip(1)));
        }
        let st = strides[k];
        let q = rem / st;
        let r = rem % st;
        proof {
            assert(unravel(sk, rem as int) == seq![q] + unravel(sk.skip(1), r as int));
            assert(idx@.push(q) + unravel(sk.skip(1), r as int) =~= idx@ + (seq![q] + unravel(
                sk.skip(1),
                r as int,
            )));
        }
        idx.push(q);
        rem = r;
        k = k + 1;
    }
    proof {
        assert(shape@.skip(n as int) =~= Seq::<usize>::empty());
        assert(idx@ + Seq::<usize>::empty() =~= idx@);
    }
    idx
}

/// The storage position `offset + sum(indices[i] * strides[i])` of a
/// multi-index; fails with an index error unless there is one index per axis,
/// each below its extent, and the position fits a `usize`.
pub fn flat_index(
    shape: &[usize],
    strides: &[usize],
    offset: usize,
    indices: &[usize],
) -> (r: Result<usize>)
    requires
        shape@.len() == strides@.len(),
    ensures
        r is Ok <==> in_bounds(shape@, indices@) && offset + dot(indices@, strides@) <= usize::MAX,
        r is Ok ==> r->Ok_0 == offset + dot(indices@, strides@),
        r is Err ==> r->Err_0 == TensorError::IndexOutOfBounds,
{
    let n = shape.len();
    if indices.len() != n {
        return Err(TensorError::IndexOutOfBounds);
    }
    let mut i: usize = 0;
    while i < n
        invariant
            i <= n,
            n == shape@.len(),
            indices@.len() == n,
            forall|j: int| 0 <= j < i ==> indices@[j] < shape@[j],
        decreases n - i,
    {
        if indices[i] >= shape[i] {
            return Err(TensorError::IndexOutOfBounds);
        }
        i = i + 1;
    }
    let ghost idx = indices@;
    let ghost st = strides@;
    let mut acc: usize = 0;
    let mut k: usize = n;
    assert(idx.skip(n as int) =~= Seq::<usize>::empty());
    while k > 0
        invariant
            k <= n,
            n == idx.len(),
            idx == indices@,
            st == strides@,
            st.len() == n,
            acc == dot(idx.skip(k as int), st.skip(k as int)),
        decreases k,
    {
        let ghost j = k - 1;
        proof {
            assert(idx.skip(j).skip(1) =~= idx.skip(k as int));
            assert(st.skip(j).skip(1) =~= st.skip(k as int));
            lemma_dot_suffix_le(idx, st, j);
            lemma_dot_nonneg(idx.skip(k as int), st.skip(k as int));
        }
        let term = indices[k - 1].checked_mul(strides[k - 1]);
        match term {
            None => {
                proof {
                    assert(idx[j] * st[j] <= idx[j] * st[j] + acc);
                }
                return Err(TensorError::IndexOutOfBounds);
            },
            Some(t) => {
                let sum = t.checked_add(acc);
                match sum {
                    None => {
                        return Err(TensorError::IndexOutOfBounds);
                    },
                    Some(v) => {
                        acc = v;
                    },
                }
            },
        }
        k = k - 1;
    }
    assert(idx.skip(0) =~= idx);
    assert(st.skip(0) =~= st);
    match acc.checked_add(offset) {
        None => Err(TensorError::IndexOutOfBounds),
        Some(v) => Ok(v),
    }
}

} // verus!
