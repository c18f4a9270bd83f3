use tensr_core::error::TensorError;
use tensr_core::tensor::Tensor;

fn t(shape: Vec<usize>, data: Vec<i32>) -> Tensor<i32> {
    Tensor::from_data(shape, data).unwrap()
}

#[test]
fn elementwise_ops_on_equal_shapes() {
    let a = t(vec![2, 2], vec![8, 9, -7, 12]);
    let b = t(vec![2, 2], vec![2, 3, 2, -5]);
    assert_eq!(a.elementwise_add(&b).unwrap().data, vec![10, 12, -5, 7]);
    assert_eq!(a.elementwise_sub(&b).unwrap().data, vec![6, 6, -9, 17]);
    assert_eq!(a.elementwise_mul(&b).unwrap().data, vec![16, 27, -14, -60]);
    // integer division rounds toward zero
    assert_eq!(a.elementwise_div(&b).unwrap().data, vec![4, 3, -3, -2]);
}

#[test]
fn elementwise_ops_reject_shape_mismatch() {
    let a = t(vec![2, 2], vec![1, 2, 3, 4]);
    let b = t(vec![4], vec![1, 2, 3, 4]);
    assert!(matches!(a.elementwise_add(&b), Err(TensorError::ShapeMismatch)));
    assert!(matches!(a.elementwise_sub(&b), Err(TensorError::ShapeMismatch)));
    assert!(matches!(a.elementwise_mul(&b), Err(TensorError::ShapeMismatch)));
    assert!(matches!(a.elementwise_div(&b), Err(TensorError::ShapeMismatch)));
}

#[test]
fn elementwise_reads_permuted_operands_by_index() {
    let a = t(vec![2, 3], vec![1, 2, 3, 4, 5, 6]);
    let at = a.transpose(0, 1).unwrap();
    let b = t(vec![3, 2], vec![10, 20, 30, 40, 50, 60]);
    let sum = at.elementwise_add(&b).unwrap();
    assert_eq!(sum.shape, vec![3, 2]);
    assert_eq!(sum.strides, vec![2, 1]);
    assert_eq!(sum.data, vec![11, 24, 32, 45, 53, 66]);
    for i in 0..3usize {
        for j in 0..2usize {
            let expect = *at.get(&[i, j]).unwrap() + *b.get(&[i, j]).unwrap();
            assert_eq!(*sum.get(&[i, j]).unwrap(), expect);
        }
    }
}

#[test]
fn elementwise_reads_offset_operands() {
    let mut a = t(vec![4], vec![100, 200, 1, 2]);
    a.set_shape(vec![2]).unwrap();
    a.set_offset(2).unwrap();
    let b = t(vec![2], vec![10, 20]);
    assert_eq!(a.elementwise_add(&b).unwrap().data, vec![11, 22]);
}

#[test]
fn elementwise_reports_unaddressable_operand() {
    let mut a = t(vec![2], vec![1, 2]);
    a.set_offset(1).unwrap();
    let b = t(vec![2], vec![10, 20]);
    assert!(matches!(a.elementwise_add(&b), Err(TensorError::IndexOutOfBounds)));
}

#[test]
fn matmul_two_by_three_times_three_by_two() {
    let a = t(vec![2, 3], vec![1, 2, 3, 4, 5, 6]);
    let b = t(vec![3, 2], vec![7, 8, 9, 10, 11, 12]);
    let c = a.matmul(&b).unwrap();
    assert_eq!(c.shape, vec![2, 2]);
    assert_eq!(c.data, vec![58, 64, 139, 154]);
}

#[test]
fn matmul_errors() {
    let a = t(vec![2, 3], vec![1, 2, 3, 4, 5, 6]);
    let v = t(vec![6], vec![1, 2, 3, 4, 5, 6]);
    assert!(matches!(a.matmul(&v), Err(TensorError::ShapeMismatch)));
    assert!(matches!(v.matmul(&a), Err(TensorError::ShapeMismatch)));
    assert!(matches!(a.matmul(&a), Err(TensorError::DimensionalMismatch)));
}

#[test]
fn matmul_reads_transposed_operand() {
    let a = t(vec![2, 3], vec![1, 2, 3, 4, 5, 6]);
    let at = a.transpose(0, 1).unwrap();
    // a * a^T
    let c = a.matmul(&at).unwrap();
    assert_eq!(c.data, vec![14, 32, 32, 77]);
}

#[test]
fn views_share_and_slice() {
    let a = t(vec![3, 2], vec![1, 2, 3, 4, 5, 6]);
    let v = a.view();
    assert_eq!(v.get_shape(), &[3, 2]);
    assert_eq!(v.get_strides(), &[2, 1]);
    assert_eq!(v.get_offset(), 0);
    assert_eq!(v.get_data(), &[1, 2, 3, 4, 5, 6]);
    let s = v.slice(0, 1..3).unwrap();
    assert_eq!(s.get_shape(), &[2, 2]);
    assert_eq!(s.get_offset(), 2);
    assert_eq!(*s.get(&[0, 0]).unwrap(), 3);
    assert_eq!(*s.get(&[1, 1]).unwrap(), 6);
    assert_eq!(s.get(&[2, 0]), Err(TensorError::IndexOutOfBounds));
    assert!(matches!(v.slice(2, 0..1), Err(TensorError::IndexOutOfBounds)));
    let col = v.slice(1, 1..2).unwrap();
    assert_eq!(col.get_shape(), &[3, 1]);
    assert_eq!(*col.get(&[2, 0]).unwrap(), 6);
    let r = v.reshape(vec![6], vec![1]);
    assert_eq!(*r.get(&[4]).unwrap(), 5);
}

#[test]
fn mutable_views_write_through() {
    let mut a = t(vec![2, 2], vec![1, 2, 3, 4]);
    {
        let mut m = a.view_mut();
        assert_eq!(m.shape(), &[2, 2]);
        assert_eq!(m.strides(), &[2, 1]);
        *m.get_mut(&[1, 0]).unwrap() = 30;
        assert!(m.get_mut(&[2, 0]).is_err());
        let mut row = m.slice_mut(0, 1..2).unwrap();
        *row.get_mut(&[0, 1]).unwrap() = 40;
        assert_eq!(row.shape(), &[1, 2]);
    }
    assert_eq!(a.data, vec![1, 2, 30, 40]);
    {
        let mut m = a.view_mut();
        let d = m.data_mut();
        d[0] = 10;
    }
    assert_eq!(a.data, vec![10, 2, 30, 40]);
}

#[test]
fn wide_integer_elements() {
    let a: Tensor<i64> = Tensor::from_data(vec![3], vec![5_000_000_000, -9, 7]).unwrap();
    let b: Tensor<i64> = Tensor::from_data(vec![3], vec![2, 2, -2]).unwrap();
    assert_eq!(a.elementwise_div(&b).unwrap().data, vec![2_500_000_000, -4, -3]);
    assert_eq!(a.elementwise_mul(&b).unwrap().data, vec![10_000_000_000, -18, -14]);
    let m: Tensor<i64> = Tensor::from_data(vec![1, 3], vec![1, 2, 3]).unwrap();
    let n: Tensor<i64> = Tensor::from_data(vec![3, 1], vec![4, 5, 6]).unwrap();
    assert_eq!(m.matmul(&n).unwrap().data, vec![32]);
}
