use burn_tensor::autodiff::{ADBackendDecorator, ADTensor};
use burn_tensor::backward::Gradients;
use burn_tensor::data::Data;
use burn_tensor::dense::{DenseBackend, DenseDevice};
use burn_tensor::graph::Op;
use burn_tensor::model::CmpOp;
use burn_tensor::ops::{Backend, TensorOps};
use burn_tensor::shape::Shape;

type AD = ADBackendDecorator<DenseBackend>;

fn data(dims: Vec<usize>, values: Vec<i64>) -> Data<i64> {
    Data::new(values, Shape::new(dims))
}

fn grad_of(ad: &AD, t: ADTensor, grads: &Gradients<DenseBackend>) -> Option<Vec<i64>> {
    ad.grad(t, grads).map(|g| DenseBackend::to_data(g).value)
}

#[test]
fn comparisons_record_nothing() {
    let mut ad = AD::new(DenseDevice);
    let a = ad.from_data(data(vec![3], vec![1, 5, 9]));
    let b = ad.from_data(data(vec![3], vec![4, 5, 6]));
    let before = ad.len();
    let equal = DenseBackend::bool_into_data(ad.compare(CmpOp::Equal, a, b)).value;
    let greater = DenseBackend::bool_into_data(ad.compare(CmpOp::Greater, a, b)).value;
    let at_least = DenseBackend::bool_into_data(ad.compare(CmpOp::GreaterEqual, a, b)).value;
    let lower = DenseBackend::bool_into_data(ad.compare(CmpOp::Lower, a, b)).value;
    let at_most = DenseBackend::bool_into_data(ad.compare(CmpOp::LowerEqual, a, b)).value;
    assert_eq!(equal, vec![false, true, false]);
    assert_eq!(greater, vec![false, false, true]);
    assert_eq!(at_least, vec![false, true, true]);
    assert_eq!(lower, vec![true, false, false]);
    assert_eq!(at_most, vec![true, true, false]);
    let small = DenseBackend::bool_into_data(ad.compare_scalar(CmpOp::Lower, a, 5)).value;
    assert_eq!(small, vec![true, false, false]);
    assert_eq!(ad.len(), before);
}

#[test]
fn positions_of_extremes_record_nothing() {
    let mut ad = AD::new(DenseDevice);
    let a = ad.from_data(data(vec![2, 3], vec![1, 9, 9, 4, 2, 0]));
    let before = ad.len();
    assert_eq!(DenseBackend::into_data(ad.argmax(a, 1)), data(vec![2, 1], vec![1, 0]));
    assert_eq!(DenseBackend::into_data(ad.argmin(a, 1)), data(vec![2, 1], vec![0, 2]));
    assert_eq!(ad.len(), before);
}

#[test]
fn mask_fill_blocks_the_gradient_where_it_fills() {
    let mut ad = AD::new(DenseDevice);
    let x = ad.from_data(data(vec![4], vec![1, -2, 3, -4]));
    let mask = ad.compare_scalar(CmpOp::Lower, x, 0);
    let y = ad.mask_fill(x, &mask, 0);
    assert_eq!(ad.to_data(y), data(vec![4], vec![1, 0, 3, 0]));
    assert_eq!(ad.nodes[y.id].op, Op::MaskFill(0));
    assert_eq!(ad.nodes[y.id].inputs, vec![x.id, y.id - 1]);
    assert_eq!(ad.nodes[y.id - 1].op, Op::Leaf);
    assert_eq!(DenseBackend::to_data(&ad.nodes[y.id - 1].value), data(vec![4], vec![1, 0, 1, 0]));
    let z = ad.mul_scalar(y, 7);
    let grads = ad.backward(z);
    assert_eq!(grad_of(&ad, x, &grads), Some(vec![7, 0, 7, 0]));
    assert_eq!(grad_of(&ad, ADTensor { id: y.id - 1 }, &grads), None);
}

#[test]
fn mask_fill_with_another_value() {
    let mut ad = AD::new(DenseDevice);
    let x = ad.from_data(data(vec![2, 2], vec![1, 2, 3, 4]));
    let mask = ad.compare_scalar(CmpOp::GreaterEqual, x, 3);
    let y = ad.mask_fill(x, &mask, -9);
    assert_eq!(ad.to_data(y), data(vec![2, 2], vec![1, 2, -9, -9]));
    assert_eq!(ad.to_data(x), data(vec![2, 2], vec![1, 2, 3, 4]));
    let grads = ad.backward(y);
    assert_eq!(grad_of(&ad, x, &grads), Some(vec![1, 1, 0, 0]));
}

#[test]
fn a_longer_expression() {
    // loss = sum((x . w - y)^2), with integers
    let mut ad = AD::new(DenseDevice);
    let x = ad.from_data(data(vec![2, 2], vec![1, 2, 3, 4]));
    let w = ad.from_data(data(vec![2, 1], vec![1, -1]));
    let y = ad.from_data(data(vec![2, 1], vec![0, 1]));
    let prediction = ad.matmul(x, w);
    assert_eq!(ad.to_data(prediction), data(vec![2, 1], vec![-1, -1]));
    let error = ad.sub(prediction, y);
    let squared = ad.mul(error, error);
    let loss = ad.sum(squared);
    assert_eq!(ad.to_data(loss), data(vec![1], vec![5]));
    let grads = ad.backward(loss);
    // d loss / d w = 2 x^T (x w - y) = 2 * [[1,3],[2,4]] . [-1,-2]
    assert_eq!(grad_of(&ad, w, &grads), Some(vec![-14, -20]));
    // d loss / d y = -2 (x w - y)
    assert_eq!(grad_of(&ad, y, &grads), Some(vec![2, 4]));
    // d loss / d x = 2 (x w - y) w^T
    assert_eq!(grad_of(&ad, x, &grads), Some(vec![-2, 2, -4, 4]));
}

#[test]
fn gradients_wrap_around_like_values() {
    let mut ad = AD::new(DenseDevice);
    let x = ad.from_data(data(vec![1], vec![3]));
    let y = ad.mul_scalar(x, i64::MAX);
    let z = ad.mul_scalar(y, 2);
    let grads = ad.backward(z);
    assert_eq!(grad_of(&ad, x, &grads), Some(vec![-2]));
}
