use tensr_core::error::TensorError;
use tensr_core::indexing::{compute_strides, flat_index, shape_product};
use tensr_core::tensor::Tensor;
use tensr_core::transforms::is_valid_perm;

fn t(shape: Vec<usize>, data: Vec<i32>) -> Tensor<i32> {
    Tensor::from_data(shape, data).unwrap()
}

#[test]
fn row_major_strides_of_shapes() {
    assert_eq!(compute_strides(&[2, 3, 4]), vec![12, 4, 1]);
    assert_eq!(compute_strides(&[5]), vec![1]);
    assert_eq!(compute_strides(&[]), Vec::<usize>::new());
    assert_eq!(shape_product(&[2, 3, 4]), 24);
    assert_eq!(shape_product(&[]), 1);
    assert_eq!(shape_product(&[3, 0, 2]), 0);
}

#[test]
fn flat_index_adds_offset_and_checks_axes() {
    assert_eq!(flat_index(&[2, 3], &[3, 1], 5, &[1, 2]), Ok(10));
    assert_eq!(flat_index(&[2, 3], &[3, 1], 0, &[1]), Err(TensorError::IndexOutOfBounds));
    assert_eq!(flat_index(&[2, 3], &[3, 1], 0, &[2, 0]), Err(TensorError::IndexOutOfBounds));
    assert_eq!(flat_index(&[2], &[usize::MAX], 0, &[1]), Ok(usize::MAX));
    assert_eq!(flat_index(&[2], &[usize::MAX], 1, &[1]), Err(TensorError::IndexOutOfBounds));
}

#[test]
fn set_then_get_returns_written_value() {
    let mut a = Tensor::new(vec![2, 3], 0);
    assert_eq!(a.set(&[1, 2], 7), Ok(()));
    assert_eq!(a.set(&[0, 1], 4), Ok(()));
    assert_eq!(*a.get(&[1, 2]).unwrap(), 7);
    assert_eq!(*a.get(&[0, 1]).unwrap(), 4);
    assert_eq!(*a.get(&[0, 0]).unwrap(), 0);
    assert_eq!(a.set(&[2, 0], 1), Err(TensorError::IndexOutOfBounds));
    assert_eq!(a.get(&[0, 3]), Err(TensorError::IndexOutOfBounds));
    assert_eq!(a.get(&[0]), Err(TensorError::IndexOutOfBounds));
    *a.get_mut(&[1, 0]).unwrap() = 9;
    assert_eq!(a.data, vec![0, 4, 0, 9, 0, 7]);
}

#[test]
fn get_honours_offset() {
    let mut a = t(vec![4], vec![1, 2, 3, 4]);
    assert_eq!(a.set_shape(vec![2]), Ok(()));
    assert_eq!(a.set_offset(2), Ok(()));
    assert_eq!(*a.get(&[0]).unwrap(), 3);
    assert_eq!(*a.get(&[1]).unwrap(), 4);
    assert_eq!(a.get_index(&[1]), Ok(3));
    assert_eq!(a.set_offset(5), Err(TensorError::IndexOutOfBounds));
    assert_eq!(*a.get_offset(), 2);
}

#[test]
fn from_data_checks_length_and_keeps_order() {
    let a = t(vec![2, 3], vec![1, 2, 3, 4, 5, 6]);
    assert_eq!(a.get_data(), &[1, 2, 3, 4, 5, 6]);
    assert_eq!(a.get_shape(), &[2, 3]);
    assert_eq!(a.get_strides(), &[3, 1]);
    assert_eq!(*a.get_offset(), 0);
    let bad = Tensor::from_data(vec![2, 3], vec![1, 2, 3]);
    assert!(matches!(bad, Err(TensorError::ShapeMismatch)));
}

#[test]
fn new_fills_every_element() {
    let a = Tensor::new(vec![2, 2], 5);
    assert_eq!(a.data, vec![5, 5, 5, 5]);
    assert_eq!(a.strides, vec![2, 1]);
    let s = Tensor::new(vec![], 3);
    assert_eq!(s.data, vec![3]);
    assert_eq!(*s.get(&[]).unwrap(), 3);
}

#[test]
fn setters_check_lengths() {
    let mut a = t(vec![2, 2], vec![1, 2, 3, 4]);
    assert_eq!(a.set_data(vec![1, 2, 3]), Err(TensorError::DimensionalMismatch));
    assert_eq!(a.set_data(vec![4, 3, 2, 1]), Ok(()));
    assert_eq!(a.data, vec![4, 3, 2, 1]);
    assert_eq!(a.set_shape(vec![4]), Err(TensorError::ShapeMismatch));
    assert_eq!(a.set_shape(vec![1, 4]), Ok(()));
    assert_eq!(a.set_strides(vec![1]), Err(TensorError::DimensionalMismatch));
    assert_eq!(a.set_strides(vec![4, 1]), Ok(()));
    assert_eq!(a.shape, vec![1, 4]);
    assert_eq!(a.strides, vec![4, 1]);
}

#[test]
fn reshape_keeps_count() {
    let a = t(vec![2, 2], vec![1, 2, 3, 4]);
    assert!(matches!(a.reshape(vec![3, 2]), Err(TensorError::ShapeMismatch)));
    let r = a.reshape(vec![4, 1]).unwrap();
    assert_eq!(r.shape, vec![4, 1]);
    assert_eq!(r.strides, vec![1, 1]);
    assert_eq!(r.data, vec![1, 2, 3, 4]);
    let r = a.reshape(vec![1, 2, 2]).unwrap();
    assert_eq!(r.strides, vec![4, 2, 1]);
}

#[test]
fn permute_reorders_and_round_trips() {
    let a = t(vec![2, 3, 4], (0..24).collect());
    let p = a.permute(&[2, 0, 1]).unwrap();
    assert_eq!(p.shape, vec![4, 2, 3]);
    assert_eq!(p.strides, vec![1, 12, 4]);
    assert_eq!(p.data, a.data);
    assert_eq!(*p.get(&[3, 1, 2]).unwrap(), *a.get(&[1, 2, 3]).unwrap());
    // inverse of [2, 0, 1] is [1, 2, 0]
    let q = p.permute(&[1, 2, 0]).unwrap();
    assert_eq!(q.shape, a.shape);
    assert_eq!(q.strides, a.strides);
    assert_eq!(q.offset, a.offset);
    assert_eq!(q.data, a.data);
}

#[test]
fn permute_rejects_bad_arguments() {
    let a = t(vec![2, 2], vec![1, 2, 3, 4]);
    assert!(matches!(a.permute(&[0, 0]), Err(TensorError::InvalidPermutation)));
    assert!(matches!(a.permute(&[0, 2]), Err(TensorError::InvalidPermutation)));
    assert!(matches!(a.permute(&[0]), Err(TensorError::ShapeMismatch)));
    assert!(matches!(a.permute(&[0, 1, 2]), Err(TensorError::ShapeMismatch)));
    assert!(is_valid_perm(&[1, 0, 2]));
    assert!(!is_valid_perm(&[1, 1, 2]));
    assert!(is_valid_perm(&[]));
}

#[test]
fn transpose_twice_restores() {
    let a = t(vec![2, 3], vec![1, 2, 3, 4, 5, 6]);
    let b = a.transpose(0, 1).unwrap();
    assert_eq!(b.shape, vec![3, 2]);
    assert_eq!(b.strides, vec![1, 3]);
    assert_eq!(*b.get(&[2, 1]).unwrap(), 6);
    assert_eq!(*b.get(&[1, 0]).unwrap(), 2);
    let c = b.transpose(0, 1).unwrap();
    assert_eq!(c.shape, a.shape);
    assert_eq!(c.strides, a.strides);
    assert!(matches!(a.transpose(0, 2), Err(TensorError::IndexOutOfBounds)));
}

#[test]
fn assert_same_shape_reports_mismatch() {
    let a = t(vec![2, 2], vec![1, 2, 3, 4]);
    let b = t(vec![4], vec![1, 2, 3, 4]);
    assert_eq!(a.assert_same_shape(&a), Ok(()));
    assert_eq!(a.assert_same_shape(&b), Err(TensorError::ShapeMismatch));
}

#[test]
fn error_messages() {
    assert_eq!(TensorError::ShapeMismatch.message(), "Tensor shapes do not match");
    assert_eq!(TensorError::IndexOutOfBounds.message(), "Index is out of bounds");
    assert_eq!(TensorError::InvalidPermutation.message(), "Invalid permutation");
}
