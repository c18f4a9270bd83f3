use vstd::arithmetic::div_mod::lemma_fundamental_div_mod_converse;
use vstd::prelude::*;

use crate::error::{Result, TensorError};
use crate::indexing::{dot, product, row_major_strides, strides_fit};
use crate::scalar::Scalar;
use crate::tensor::Tensor;

verus! {

/// The storage position of row `i`, column `j` of a rank-2 tensor.
pub open spec fn entry_pos<T: Copy>(t: Tensor<T>, i: usize, j: usize) -> int {
    t.offset + i * t.strides@[0] + j * t.strides@[1]
}

/// The element of a rank-2 tensor at row `i`, column `j`.
pub open spec fn entry<T: Copy>(t: Tensor<T>, i: usize, j: usize) -> T {
    t.data@[entry_pos(t, i, j)]
}

/// Row `i`, column `j` of a rank-2 tensor is inside its shape and lands
/// inside its buffer.
pub open spec fn entry_valid<T: Copy>(t: Tensor<T>, i: usize, j: usize) -> bool {
    &&& i < t.shape@[0]
    &&& j < t.shape@[1]
    &&& entry_pos(t, i, j) < t.data@.len()
}

/// For a rank-2 tensor the entry notions agree with the general ones.
pub proof fn lemma_entry<T: Copy>(t: Tensor<T>, i: usize, j: usize)
    requires
        t.wf(),
        t.shape@.len() == 2,
    ensures
        entry_valid(t, i, j) == t.valid(seq![i, j]),
        entry(t, i, j) == t.at(seq![i, j]),
{
    let x = seq![i, j];
    let s = t.strides@;
    assert(x.skip(1) =~= seq![j]);
    assert(s.skip(1) =~= seq![s[1]]);
    assert(seq![j].skip(1) =~= Seq::<usize>::empty());
    assert(seq![s[1]].skip(1) =~= Seq::<usize>::empty());
    assert(dot(Seq::<usize>::empty(), Seq::<usize>::empty()) == 0);
    assert(dot(seq![j], seq![s[1]]) == j * s[1] + dot(seq![j].skip(1), seq![s[1]].skip(1)));
    assert(dot(x, s) == i * s[0] + j * s[1]);
}

/// `a[i][k] * b[k][j]`.
pub open spec fn term<T: Scalar>(a: Tensor<T>, b: Tensor<T>, i: usize, j: usize, k: usize) -> T {
    T::mul_spec(entry(a, i, k), entry(b, k, j))
}

/// The sum of the first `k` terms of row `i` of `a` against column `j` of
/// `b`, accumulated from zero in increasing `k`.
pub open spec fn partial_sum<T: Scalar>(a: Tensor<T>, b: Tensor<T>, i: usize, j: usize, k: nat) -> T
    decreases k,
{
    if k == 0 {
        T::zero_spec()
    } else {
        T::add_spec(partial_sum(a, b, i, j, (k - 1) as nat), term(a, b, i, j, (k - 1) as usize))
    }
}

/// The `k`-th step of the sum for cell `(i, j)` neither overflows in the
/// product nor in the accumulation.
pub open spec fn step_ok<T: Scalar>(a: Tensor<T>, b: Tensor<T>, i: usize, j: usize, k: usize) -> bool {
    &&& T::mul_ok(entry(a, i, k), entry(b, k, j))
    &&& T::add_ok(partial_sum(a, b, i, j, k as nat), term(a, b, i, j, k))
}

/// Every step of every cell's sum is defined wherever its operands can be
/// addressed.
pub open spec fn matmul_defined<T: Scalar>(a: Tensor<T>, b: Tensor<T>) -> bool {
    forall|i: usize, j: usize, k: usize|
        i < a.shape@[0] && j < b.shape@[1] && k < a.shape@[1] && entry_valid(a, i, k)
            && entry_valid(b, k, j) ==> #[trigger] step_ok(a, b, i, j, k)
}

/// Both entries of step `k` of cell `(i, j)` can be addressed.
pub open spec fn step_addressable<T: Copy>(a: Tensor<T>, b: Tensor<T>, i: usize, j: usize, k: usize) -> bool {
    entry_valid(a, i, k) && entry_valid(b, k, j)
}

/// Some operand entry that the product reads cannot be addressed.
pub open spec fn matmul_unaddressable<T: Copy>(a: Tensor<T>, b: Tensor<T>) -> bool {
    exists|i: usize, j: usize, k: usize|
        i < a.shape@[0] && j < b.shape@[1] && k < a.shape@[1] && !#[trigger] step_addressable(
            a,
            b,
            i,
            j,
            k,
        )
}

/// Every cell `(i, j)` of `t` can be addressed and holds the sum over `k` of
/// `a[i][k] * b[k][j]`.
pub open spec fn is_product<T: Scalar>(a: Tensor<T>, b: Tensor<T>, t: Tensor<T>) -> bool {
    forall|i: usize, j: usize|
        i < a.shape@[0] && j < b.shape@[1] ==> entry_valid(t, i, j) && #[trigger] entry(t, i, j)
            == partial_sum(a, b, i, j, a.shape@[1] as nat)
}

proof fn lemma_unaddressable_witness<T: Copy>(a: Tensor<T>, b: Tensor<T>, i: usize, j: usize, k: usize)
    requires
        i < a.shape@[0],
        j < b.shape@[1],
        k < a.shape@[1],
        !(entry_valid(a, i, k) && entry_valid(b, k, j)),
    ensures
        matmul_unaddressable(a, b),
{
    assert(!step_addressable(a, b, i, j, k));

}

proof fn lemma_rank2(m: usize, n: usize, i: usize, j: usize)
    ensures
        product(seq![m, n]) == m * n,
        row_major_strides(seq![m, n]) == seq![n, 1usize],
        dot(seq![i, j], seq![n, 1usize]) == i * n + j,
        m * n <= usize::MAX ==> strides_fit(seq![m, n]),
{
    let s = seq![m, n];
    assert(s.skip(1) =~= seq![n]);
    assert(s.skip(2) =~= Seq::<usize>::empty());
    assert(seq![n].skip(1) =~= Seq::<usize>::empty());
    assert(s.skip(0) =~= s);
    assert(product(Seq::<usize>::empty()) == 1);
    assert(product(seq![n]) == n * product(seq![n].skip(1)));
    assert(product(seq![n]) == n);
    assert(row_major_strides(s) =~= seq![n, 1usize]);
    assert(seq![i, j].skip(1) =~= seq![j]);
    assert(seq![n, 1usize].skip(1) =~= seq![1usize]);
    assert(seq![j].skip(1) =~= Seq::<usize>::empty());
    assert(seq![1usize].skip(1) =~= Seq::<usize>::empty());
    assert(dot(Seq::<usize>::empty(), Seq::<usize>::empty()) == 0);
    assert(dot(seq![j], seq![1usize]) == j * 1 + dot(seq![j].skip(1), seq![1usize].skip(1)));
    assert(dot(seq![j], seq![1usize]) == j);
    if m * n <= usize::MAX {
        assert forall|x: int| 0 <= x <= s.len() implies #[trigger] product(s.skip(x)) <= usize::MAX by {
            if x == 1 {
                assert(n <= usize::MAX);
            }
        }
    }
}

impl<T: Scalar> Tensor<T> {
    /// The matrix product of two rank-2 tensors: cell `(i, j)` of the result
    /// is the sum over `k` of `self[i][k] * rhs[k][j]`, read through each
    /// operand's own layout. Fails with a shape mismatch unless both operands
    /// have rank 2, with a dimensional mismatch unless the inner extents agree,
    /// and with an index error exactly when an entry it reads cannot be
    /// addressed.
    pub fn matmul(&self, rhs: &Self) -> (r: Result<Self>)
        requires
            self.wf(),
            rhs.wf(),
            self.shape@.len() == 2 && rhs.shape@.len() == 2 ==> self.shape@[0] * rhs.shape@[1]
                <= usize::MAX,
            self.shape@.len() == 2 && rhs.shape@.len() == 2 ==> matmul_defined(*self, *rhs),
        ensures
            self.shape@.len() != 2 || rhs.shape@.len() != 2 ==> r == Err::<Self, TensorError>(
                TensorError::ShapeMismatch),
            self.shape@.len() == 2 && rhs.shape@.len() == 2 && self.shape@[1] != rhs.shape@[0]
                ==> r == Err::<Self, TensorError>(TensorError::DimensionalMismatch),
            self.shape@.len() == 2 && rhs.shape@.len() == 2 && self.shape@[1] == rhs.shape@[0]
                ==> (r is Err <==> matmul_unaddressable(*self, *rhs)),
            r is Err ==> r->Err_0 != TensorError::InvalidPermutation,
            r is Ok ==> r->Ok_0.shape@ == seq![self.shape@[0], rhs.shape@[1]] && r->Ok_0.wf()
                && r->Ok_0.contiguous(),
            r is Ok ==> is_product(*self, *rhs, r->Ok_0),
    {
        if self.shape.len() != 2 || rhs.shape.len() != 2 {
            return Err(TensorError::ShapeMismatch);
        }
        let m = self.shape[0];
        let kk = self.shape[1];
        let k2 = rhs.shape[0];
        let n = rhs.shape[1];
        if kk != k2 {
            return Err(TensorError::DimensionalMismatch);
        }
        let cells = m * n;
        let mut data: Vec<T> = Vec::with_capacity(cells);
        let mut c: usize = 0;
        while c < cells
            invariant
                c <= cells,
                cells == m * n,
                m == self.shape@[0],
                kk == self.shape@[1],
                kk == rhs.shape@[0],
                n == rhs.shape@[1],
                self.shape@.len() == 2,
                rhs.shape@.len() == 2,
                self.wf(),
                rhs.wf(),
                matmul_defined(*self, *rhs),
                data@.len() == c,
                n > 0 || c == 0,
                forall|q: int|
                    0 <= q < c ==> #[trigger] data@[q] == partial_sum(
                        *self,
                        *rhs,
                        (q / n as int) as usize,
                        (q % n as int) as usize,
                        kk as nat,
                    ),
                forall|i: usize, j: usize, k: usize|
                    i < m && j < n && i * n + j < c && k < kk ==> #[trigger] step_addressable(
                        *self,
                        *rhs,
                        i,
                        j,
                        k,
                    ),
            decreases cells - c,
        {
            let i = c / n;
            let j = c % n;
            proof {
                assert(i < m) by (nonlinear_arith)
                    requires
                        c < m * n,
                        n > 0,
                        i == c / n,
                ;
            }
            assert(j < n);
            let mut sum = T::zero();
            let mut k: usize = 0;
            while k < kk
                invariant
                    k <= kk,
                    i < m,
                    j < n,
                    m == self.shape@[0],
                    kk == self.shape@[1],
                    kk == rhs.shape@[0],
                    n == rhs.shape@[1],
                    self.shape@.len() == 2,
                    rhs.shape@.len() == 2,
                    self.wf(),
                    rhs.wf(),
                    matmul_defined(*self, *rhs),
                    sum == partial_sum(*self, *rhs, i, j, k as nat),
                    forall|l: usize| l < k ==> #[trigger] step_addressable(*self, *rhs, i, j, l),
                decreases kk - k,
            {
                let ik = vec![i, k];
                let kj = vec![k, j];
                assert(ik@ == seq![i, k]);
                assert(kj@ == seq![k, j]);
                proof {
                    lemma_entry(*self, i, k);
                    lemma_entry(*rhs, k, j);
                }
                let gx = self.get(ik.as_slice());
                if gx.is_err() {
                    proof {
                        lemma_unaddressable_witness(*self, *rhs, i, j, k);
                    }
                    return Err(TensorError::IndexOutOfBounds);
                }
                let gy = rhs.get(kj.as_slice());
                if gy.is_err() {
                    proof {
                        lemma_unaddressable_witness(*self, *rhs, i, j, k);
                    }
                    return Err(TensorError::IndexOutOfBounds);
                }
                let x = *gx.unwrap();
                let y = *gy.unwrap();
                assert(entry_valid(*self, i, k));
                assert(entry_valid(*rhs, k, j));
                assert(step_ok(*self, *rhs, i, j, k));
                let t = T::times(x, y);
                sum = T::plus(sum, t);
                k = k + 1;
            }
            proof {
                assert forall|i2: usize, j2: usize, k2: usize|
                    i2 < m && j2 < n && i2 * n + j2 < c + 1 && k2 < kk implies #[trigger] step_addressable(
                    *self,
                    *rhs,
                    i2,
                    j2,
                    k2,
                ) by {
                    if i2 * n + j2 == c {
                        lemma_fundamental_div_mod_converse(c as int, n as int, i2 as int, j2 as int);
                    }
                }
            }
            data.push(sum);
            c = c + 1;
        }
        let shape = vec![m, n];
        let strides = vec![n, 1usize];
        let out = Tensor { data, shape, strides, offset: 0 };
        proof {
            lemma_rank2(m, n, 0, 0);
            assert(out.shape@ == seq![m, n]);
            assert forall|i: usize, j: usize|
                #![trigger entry(out, i, j)]
                #![trigger entry_valid(out, i, j)]
                i < self.shape@[0] && j < rhs.shape@[1] implies entry_valid(out, i, j) && entry(
                out,
                i,
                j,
            ) == partial_sum(*self, *rhs, i, j, self.shape@[1] as nat) by {
                lemma_rank2(m, n, i, j);
                assert(out.strides@[0] == n && out.strides@[1] == 1);
                assert(entry_pos(out, i, j) == i * n + j);
                let q = i * n + j;
                assert(q < m * n) by (nonlinear_arith)
                    requires
                        i < m,
                        j < n,
                        q == i * n + j,
                ;
                lemma_fundamental_div_mod_converse(q, n as int, i as int, j as int);
            }
            assert forall|i: usize, j: usize, k: usize|
                i < m && j < n && k < kk implies #[trigger] step_addressable(*self, *rhs, i, j, k) by {
                let q = i * n + j;
                assert(q < m * n) by (nonlinear_arith)
                    requires
                        i < m,
                        j < n,
                        q == i * n + j,
                ;
            }
        }
        Ok(out)
    }
}

} // verus!
