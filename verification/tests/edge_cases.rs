use burn_tensor::autodiff::ADBackendDecorator;
use burn_tensor::data::Data;
use burn_tensor::dense::{DenseBackend, DenseDevice, DenseTensor};
use burn_tensor::ops::{Backend, TensorOps, TensorOpsAggregation};
use burn_tensor::shape::Shape;

fn tensor(dims: Vec<usize>, values: Vec<i64>) -> DenseTensor {
    DenseBackend::from_data(Data::new(values, Shape::new(dims)), DenseDevice)
}

#[test]
fn tensors_of_rank_zero_hold_one_element() {
    let a = tensor(vec![], vec![5]);
    let b = tensor(vec![], vec![-2]);
    assert_eq!(DenseBackend::to_data(&DenseBackend::add(&a, &b)).value, vec![3]);
    assert_eq!(DenseBackend::to_data(&DenseBackend::mul(&a, &b)).shape.dims, Vec::<usize>::new());
    assert_eq!(DenseBackend::to_data(&DenseBackend::neg(&a)).value, vec![-5]);
    assert_eq!(DenseBackend::to_data(&a.sum()).value, vec![5]);
    assert_eq!(DenseBackend::to_data(&DenseBackend::index(&a, vec![])).value, vec![5]);
    let r = DenseBackend::reshape(&a, Shape::new(vec![1, 1]));
    assert_eq!(DenseBackend::to_data(&r).shape.dims, vec![1, 1]);
}

#[test]
fn tensors_without_elements() {
    let a = tensor(vec![0, 3], vec![]);
    let b = tensor(vec![0, 3], vec![]);
    assert_eq!(DenseBackend::to_data(&DenseBackend::add(&a, &b)).value, Vec::<i64>::new());
    assert_eq!(DenseBackend::to_data(&DenseBackend::transpose(&a)).shape.dims, vec![3, 0]);
    assert_eq!(DenseBackend::to_data(&a.sum()).value, vec![0]);
    let c = DenseBackend::matmul(&a, &tensor(vec![3, 2], vec![1, 2, 3, 4, 5, 6]));
    assert_eq!(DenseBackend::to_data(&c).shape.dims, vec![0, 2]);
}

#[test]
fn backward_on_a_tensor_of_rank_zero() {
    let mut ad = ADBackendDecorator::<DenseBackend>::new(DenseDevice);
    let x = ad.from_data(Data::new(vec![6], Shape::new(vec![])));
    let y = ad.mul(x, x);
    let grads = ad.backward(y);
    let grad = DenseBackend::to_data(ad.grad(x, &grads).unwrap());
    assert_eq!(grad.value, vec![12]);
    assert_eq!(grad.shape.dims, Vec::<usize>::new());
}

#[test]
fn backward_on_a_tensor_without_elements() {
    let mut ad = ADBackendDecorator::<DenseBackend>::new(DenseDevice);
    let x = ad.from_data(Data::new(vec![], Shape::new(vec![2, 0])));
    let y = ad.neg(x);
    let grads = ad.backward(y);
    let grad = DenseBackend::to_data(ad.grad(x, &grads).unwrap());
    assert_eq!(grad.value, Vec::<i64>::new());
    assert_eq!(grad.shape.dims, vec![2, 0]);
}

#[test]
fn backward_through_a_sum_of_nothing() {
    let mut ad = ADBackendDecorator::<DenseBackend>::new(DenseDevice);
    let x = ad.from_data(Data::new(vec![], Shape::new(vec![0])));
    let total = ad.sum(x);
    assert_eq!(ad.to_data(total).value, vec![0]);
    let grads = ad.backward(total);
    let grad = DenseBackend::to_data(ad.grad(x, &grads).unwrap());
    assert_eq!(grad.value, Vec::<i64>::new());
    assert_eq!(grad.shape.dims, vec![0]);
}

#[test]
fn a_deep_chain_of_operations() {
    let mut ad = ADBackendDecorator::<DenseBackend>::new(DenseDevice);
    let x = ad.from_data(Data::new(vec![1, 2], Shape::new(vec![2])));
    let mut y = x;
    for _ in 0..50 {
        y = ad.add_scalar(y, 1);
        y = ad.neg(y);
    }
    assert_eq!(ad.len(), 101);
    assert_eq!(ad.to_data(y).value, vec![1, 2]);
    let grads = ad.backward(y);
    assert_eq!(DenseBackend::to_data(ad.grad(x, &grads).unwrap()).value, vec![1, 1]);
}
