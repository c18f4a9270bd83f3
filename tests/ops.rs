use tensr_core::tensor::Tensor;

#[test]
fn test_add() {
    let a = Tensor::from_data(vec![2, 2], vec![1, 2, 3, 4]).unwrap();
    let b = Tensor::from_data(vec![2, 2], vec![5, 6, 7, 8]).unwrap();

    let result = a.elementwise_add(&b).unwrap();

    assert_eq!(result.shape, vec![2, 2]);
    assert_eq!(result.data, vec![6, 8, 10, 12]);
}

#[test]
fn test_mul() {
    let a = Tensor::from_data(vec![2, 2], vec![1, 2, 3, 4]).unwrap();
    let b = Tensor::from_data(vec![2, 2], vec![5, 6, 7, 8]).unwrap();

    let result = a.matmul(&b);

    assert_eq!(result.unwrap().data, vec![19, 22, 43, 50]);
}

#[test]
fn test_sub() {
    let a = Tensor::from_data(vec![2, 2], vec![1, 2, 3, 4]).unwrap();
    let b = Tensor::from_data(vec![2, 2], vec![5, 6, 7, 8]).unwrap();

    let result = a.elementwise_sub(&b).unwrap();

    assert_eq!(result.shape, vec![2, 2]);
    assert_eq!(result.data, vec![-4, -4, -4, -4]);
}
