use burn_tensor::autodiff::{ADBackendDecorator, ADTensor};
use burn_tensor::backward::Gradients;
use burn_tensor::data::Data;
use burn_tensor::dense::{DenseBackend, DenseDevice, DenseTensor};
use burn_tensor::graph::Op;
use burn_tensor::ops::{Backend, TensorOps};
use burn_tensor::shape::Shape;

type AD = ADBackendDecorator<DenseBackend>;

fn data(dims: Vec<usize>, values: Vec<i64>) -> Data<i64> {
    Data::new(values, Shape::new(dims))
}

fn grad_of(ad: &AD, t: ADTensor, grads: &Gradients<DenseBackend>) -> Option<Vec<i64>> {
    ad.grad(t, grads).map(|g| DenseBackend::to_data(g).value)
}

fn grad_dims(ad: &AD, t: ADTensor, grads: &Gradients<DenseBackend>) -> Option<Vec<usize>> {
    ad.grad(t, grads).map(|g| DenseBackend::to_data(g).shape.dims)
}

#[test]
fn identities_grow_with_every_operation() {
    let mut ad = AD::new(DenseDevice);
    assert_eq!(ad.len(), 0);
    let a = ad.from_data(data(vec![2], vec![1, 2]));
    let b = ad.from_data(data(vec![2], vec![1, 2]));
    let c = ad.add(a, b);
    let d = ad.add(a, b);
    assert_eq!((a.id, b.id, c.id, d.id), (0, 1, 2, 3));
    assert_ne!(c, d);
    assert_eq!(ad.len(), 4);
}

#[test]
fn forward_values_are_those_of_the_wrapped_backend() {
    let mut ad = AD::new(DenseDevice);
    let a = ad.from_data(data(vec![2, 2], vec![1, 7, 2, 3]));
    let b = ad.from_data(data(vec![2, 2], vec![4, 7, 2, 3]));
    let sum = ad.add(a, b);
    let diff = ad.sub(a, b);
    let prod = ad.mul(a, b);
    let mat = ad.matmul(a, b);
    let neg = ad.neg(a);
    let t = ad.transpose(a);
    assert_eq!(ad.to_data(sum), data(vec![2, 2], vec![5, 14, 4, 6]));
    assert_eq!(ad.to_data(diff), data(vec![2, 2], vec![-3, 0, 0, 0]));
    assert_eq!(ad.to_data(prod), data(vec![2, 2], vec![4, 49, 4, 9]));
    assert_eq!(ad.to_data(mat), data(vec![2, 2], vec![18, 28, 14, 23]));
    assert_eq!(ad.to_data(neg), data(vec![2, 2], vec![-1, -7, -2, -3]));
    assert_eq!(ad.to_data(t), data(vec![2, 2], vec![1, 2, 7, 3]));
    assert_eq!(ad.shape(mat).dims, vec![2, 2]);
    assert_eq!(ad.to_data(a), data(vec![2, 2], vec![1, 7, 2, 3]));
}

#[test]
fn nodes_record_operation_and_inputs() {
    let mut ad = AD::new(DenseDevice);
    let a = ad.from_data(data(vec![2], vec![1, 2]));
    let b = ad.mul_scalar(a, 3);
    let c = ad.sub(b, a);
    assert_eq!(ad.nodes[a.id].op, Op::Leaf);
    assert_eq!(ad.nodes[a.id].inputs, Vec::<usize>::new());
    assert_eq!(ad.nodes[b.id].op, Op::MulScalar(3));
    assert_eq!(ad.nodes[b.id].inputs, vec![a.id]);
    assert_eq!(ad.nodes[c.id].op, Op::Sub);
    assert_eq!(ad.nodes[c.id].inputs, vec![b.id, a.id]);
}

#[test]
fn gradient_of_a_root_that_is_an_input_is_the_seed() {
    let mut ad = AD::new(DenseDevice);
    let a = ad.from_data(data(vec![3], vec![4, 5, 6]));
    let grads = ad.backward(a);
    assert_eq!(grad_of(&ad, a, &grads), Some(vec![1, 1, 1]));
}

#[test]
fn gradient_of_add_passes_through() {
    let mut ad = AD::new(DenseDevice);
    let a = ad.from_data(data(vec![2], vec![1, 2]));
    let b = ad.from_data(data(vec![2], vec![3, 4]));
    let c = ad.add(a, b);
    let grads = ad.backward(c);
    assert_eq!(grad_of(&ad, a, &grads), Some(vec![1, 1]));
    assert_eq!(grad_of(&ad, b, &grads), Some(vec![1, 1]));
}

#[test]
fn gradient_of_sub_negates_the_right_side() {
    let mut ad = AD::new(DenseDevice);
    let a = ad.from_data(data(vec![2], vec![1, 2]));
    let b = ad.from_data(data(vec![2], vec![3, 4]));
    let c = ad.sub(a, b);
    let grads = ad.backward(c);
    assert_eq!(grad_of(&ad, a, &grads), Some(vec![1, 1]));
    assert_eq!(grad_of(&ad, b, &grads), Some(vec![-1, -1]));
}

#[test]
fn gradient_of_mul_is_the_other_factor() {
    let mut ad = AD::new(DenseDevice);
    let a = ad.from_data(data(vec![2], vec![2, 3]));
    let b = ad.from_data(data(vec![2], vec![5, 7]));
    let c = ad.mul(a, b);
    let grads = ad.backward(c);
    assert_eq!(grad_of(&ad, a, &grads), Some(vec![5, 7]));
    assert_eq!(grad_of(&ad, b, &grads), Some(vec![2, 3]));
}

#[test]
fn gradient_of_scalar_operations() {
    let mut ad = AD::new(DenseDevice);
    let a = ad.from_data(data(vec![2], vec![2, 3]));
    let b = ad.add_scalar(a, 10);
    let c = ad.sub_scalar(b, 4);
    let d = ad.mul_scalar(c, -6);
    assert_eq!(ad.to_data(d), data(vec![2], vec![-48, -54]));
    let grads = ad.backward(d);
    assert_eq!(grad_of(&ad, a, &grads), Some(vec![-6, -6]));
}

#[test]
fn gradient_of_matmul_uses_transposed_products() {
    let mut ad = AD::new(DenseDevice);
    let a = ad.from_data(data(vec![2, 3], vec![1, 2, 3, 4, 5, 6]));
    let b = ad.from_data(data(vec![3, 2], vec![1, 0, 0, 1, 2, 2]));
    let c = ad.matmul(a, b);
    let grads = ad.backward(c);
    assert_eq!(grad_of(&ad, a, &grads), Some(vec![1, 1, 4, 1, 1, 4]));
    assert_eq!(grad_dims(&ad, a, &grads), Some(vec![2, 3]));
    assert_eq!(grad_of(&ad, b, &grads), Some(vec![5, 5, 7, 7, 9, 9]));
    assert_eq!(grad_dims(&ad, b, &grads), Some(vec![3, 2]));
}

#[test]
fn gradient_with_a_given_seed() {
    let mut ad = AD::new(DenseDevice);
    let a = ad.from_data(data(vec![2, 2], vec![1, 7, 2, 3]));
    let b = ad.from_data(data(vec![2, 2], vec![4, 7, 2, 3]));
    let c = ad.matmul(a, b);
    let seed = DenseBackend::from_data(data(vec![2, 2], vec![1, 0, 0, 0]), DenseDevice);
    let grads = ad.backward_with_seed(c, seed);
    assert_eq!(grad_of(&ad, a, &grads), Some(vec![4, 2, 0, 0]));
    assert_eq!(grad_of(&ad, b, &grads), Some(vec![1, 0, 7, 0]));
}

#[test]
fn fan_out_adds_the_contributions_of_both_consumers() {
    let mut ad = AD::new(DenseDevice);
    let x = ad.from_data(data(vec![3], vec![1, 2, 3]));
    let a = ad.neg(x);
    let b = ad.mul_scalar(x, 3);
    let c = ad.add(a, b);
    let grads = ad.backward(c);
    assert_eq!(grad_of(&ad, x, &grads), Some(vec![2, 2, 2]));
}

#[test]
fn a_tensor_used_twice_by_one_operation_gets_both_shares() {
    let mut ad = AD::new(DenseDevice);
    let x = ad.from_data(data(vec![3], vec![1, 2, 3]));
    let square = ad.mul(x, x);
    let grads = ad.backward(square);
    assert_eq!(grad_of(&ad, x, &grads), Some(vec![2, 4, 6]));
    let double = ad.add(x, x);
    let grads = ad.backward(double);
    assert_eq!(grad_of(&ad, x, &grads), Some(vec![2, 2, 2]));
}

#[test]
fn fan_out_through_an_inner_tensor() {
    let mut ad = AD::new(DenseDevice);
    let x = ad.from_data(data(vec![2], vec![3, 5]));
    let y = ad.mul_scalar(x, 2);
    let a = ad.mul(y, y);
    let b = ad.add(a, y);
    let grads = ad.backward(b);
    // d/dx (4x^2 + 2x) = 8x + 2
    assert_eq!(grad_of(&ad, x, &grads), Some(vec![26, 42]));
}

#[test]
fn gradients_are_reported_for_inputs_only() {
    let mut ad = AD::new(DenseDevice);
    let x = ad.from_data(data(vec![2], vec![3, 5]));
    let y = ad.mul_scalar(x, 2);
    let z = ad.neg(y);
    let grads = ad.backward(z);
    assert_eq!(grad_of(&ad, x, &grads), Some(vec![-2, -2]));
    assert_eq!(grad_of(&ad, y, &grads), None);
    assert_eq!(grad_of(&ad, z, &grads), None);
}

#[test]
fn no_gradient_for_a_tensor_that_took_no_part() {
    let mut ad = AD::new(DenseDevice);
    let x = ad.from_data(data(vec![2], vec![3, 5]));
    let unused = ad.from_data(data(vec![2], vec![1, 1]));
    let y = ad.neg(x);
    let later = ad.from_data(data(vec![2], vec![1, 1]));
    let grads = ad.backward(y);
    assert_eq!(grad_of(&ad, x, &grads), Some(vec![-1, -1]));
    assert_eq!(grad_of(&ad, unused, &grads), None);
    assert_eq!(grad_of(&ad, later, &grads), None);
    assert_eq!(grad_of(&ad, ADTensor { id: 1000 }, &grads), None);
    assert!(grads.grad(unused).is_none());
    assert!(grads.grad(x).is_some());
}

#[test]
fn detach_keeps_the_value_and_cuts_the_history() {
    let mut ad = AD::new(DenseDevice);
    let x = ad.from_data(data(vec![2], vec![3, 5]));
    let y = ad.mul_scalar(x, 2);
    let d = ad.detach(y);
    assert_ne!(d, y);
    assert_eq!(ad.to_data(d), data(vec![2], vec![6, 10]));
    assert_eq!(ad.nodes[d.id].op, Op::Leaf);
    assert_eq!(ad.nodes[d.id].inputs, Vec::<usize>::new());
    let z = ad.mul_scalar(d, 5);
    let grads = ad.backward(z);
    assert_eq!(grad_of(&ad, d, &grads), Some(vec![5, 5]));
    assert_eq!(grad_of(&ad, x, &grads), None);
    assert_eq!(grad_of(&ad, y, &grads), None);
}

#[test]
fn gradient_flows_around_a_detached_tensor_but_not_through_it() {
    let mut ad = AD::new(DenseDevice);
    let x = ad.from_data(data(vec![2], vec![3, 5]));
    let d = ad.detach(x);
    let y = ad.mul(x, d);
    let grads = ad.backward(y);
    assert_eq!(grad_of(&ad, x, &grads), Some(vec![3, 5]));
    assert_eq!(grad_of(&ad, d, &grads), Some(vec![3, 5]));
}

#[test]
fn backward_from_a_detached_tensor_reaches_nothing_else() {
    let mut ad = AD::new(DenseDevice);
    let x = ad.from_data(data(vec![2], vec![3, 5]));
    let d = ad.detach(x);
    let grads = ad.backward(d);
    assert_eq!(grad_of(&ad, d, &grads), Some(vec![1, 1]));
    assert_eq!(grad_of(&ad, x, &grads), None);
}

#[test]
fn two_passes_over_one_graph_are_independent() {
    let mut ad = AD::new(DenseDevice);
    let x = ad.from_data(data(vec![2], vec![3, 5]));
    let y = ad.mul_scalar(x, 2);
    let z = ad.mul_scalar(x, 7);
    let first = ad.backward(y);
    let second = ad.backward(z);
    let again = ad.backward(y);
    assert_eq!(grad_of(&ad, x, &first), Some(vec![2, 2]));
    assert_eq!(grad_of(&ad, x, &second), Some(vec![7, 7]));
    assert_eq!(grad_of(&ad, x, &again), Some(vec![2, 2]));
}

#[test]
fn gradient_of_transpose_and_reshape() {
    let mut ad = AD::new(DenseDevice);
    let x = ad.from_data(data(vec![2, 3], vec![1, 2, 3, 4, 5, 6]));
    let w = ad.from_data(data(vec![3, 2], vec![1, 2, 3, 4, 5, 6]));
    let t = ad.transpose(x);
    let p = ad.mul(t, w);
    let grads = ad.backward(p);
    assert_eq!(grad_of(&ad, x, &grads), Some(vec![1, 3, 5, 2, 4, 6]));
    assert_eq!(grad_dims(&ad, x, &grads), Some(vec![2, 3]));

    let r = ad.reshape(x, Shape::new(vec![3, 2]));
    let q = ad.mul(r, w);
    let grads = ad.backward(q);
    assert_eq!(grad_of(&ad, x, &grads), Some(vec![1, 2, 3, 4, 5, 6]));
    assert_eq!(grad_dims(&ad, x, &grads), Some(vec![2, 3]));
}

#[test]
fn gradient_of_swap_dims_of_rank_three() {
    let mut ad = AD::new(DenseDevice);
    let x = ad.from_data(data(vec![2, 1, 3], vec![0, 1, 2, 3, 4, 5]));
    let w = ad.from_data(data(vec![3, 1, 2], vec![10, 20, 30, 40, 50, 60]));
    let s = ad.swap_dims(x, 0, 2);
    let p = ad.mul(s, w);
    let grads = ad.backward(p);
    assert_eq!(grad_of(&ad, x, &grads), Some(vec![10, 30, 50, 20, 40, 60]));
    assert_eq!(grad_dims(&ad, x, &grads), Some(vec![2, 1, 3]));
}

#[test]
fn gradient_of_sum_spreads_over_every_element() {
    let mut ad = AD::new(DenseDevice);
    let x = ad.from_data(data(vec![2, 2], vec![1, 2, 3, 4]));
    let square = ad.mul(x, x);
    let loss = ad.sum(square);
    assert_eq!(ad.to_data(loss), data(vec![1], vec![30]));
    let grads = ad.backward(loss);
    assert_eq!(grad_of(&ad, x, &grads), Some(vec![2, 4, 6, 8]));
    assert_eq!(grad_dims(&ad, x, &grads), Some(vec![2, 2]));
}

#[test]
fn gradient_of_sum_along_a_dimension() {
    let mut ad = AD::new(DenseDevice);
    let x = ad.from_data(data(vec![2, 3], vec![1, 2, 3, 4, 5, 6]));
    let w = ad.from_data(data(vec![2, 1], vec![10, 20]));
    let s = ad.sum_dim(x, 1);
    assert_eq!(ad.to_data(s), data(vec![2, 1], vec![6, 15]));
    let p = ad.mul(s, w);
    let grads = ad.backward(p);
    assert_eq!(grad_of(&ad, x, &grads), Some(vec![10, 10, 10, 20, 20, 20]));
    assert_eq!(grad_of(&ad, w, &grads), Some(vec![6, 15]));
}

#[test]
fn gradient_of_repeat_sums_the_copies() {
    let mut ad = AD::new(DenseDevice);
    let x = ad.from_data(data(vec![2, 1], vec![5, 6]));
    let w = ad.from_data(data(vec![2, 3], vec![1, 2, 3, 4, 5, 6]));
    let r = ad.repeat(x, 1, 3);
    assert_eq!(ad.to_data(r), data(vec![2, 3], vec![5, 5, 5, 6, 6, 6]));
    let p = ad.mul(r, w);
    let grads = ad.backward(p);
    assert_eq!(grad_of(&ad, x, &grads), Some(vec![6, 15]));
    assert_eq!(grad_dims(&ad, x, &grads), Some(vec![2, 1]));
}

#[test]
fn gradient_of_index_is_zero_outside_the_region() {
    let mut ad = AD::new(DenseDevice);
    let x = ad.from_data(data(vec![3, 3], vec![1, 2, 3, 4, 5, 6, 7, 8, 9]));
    let part = ad.index(x, vec![1..3, 0..2]);
    assert_eq!(ad.to_data(part), data(vec![2, 2], vec![4, 5, 7, 8]));
    let scaled = ad.mul_scalar(part, 3);
    let grads = ad.backward(scaled);
    assert_eq!(grad_of(&ad, x, &grads), Some(vec![0, 0, 0, 3, 3, 0, 3, 3, 0]));
}

#[test]
fn gradient_of_index_assign_splits_between_tensor_and_value() {
    let mut ad = AD::new(DenseDevice);
    let x = ad.from_data(data(vec![2, 3], vec![1, 2, 3, 4, 5, 6]));
    let v = ad.from_data(data(vec![2, 1], vec![7, 8]));
    let w = ad.from_data(data(vec![2, 3], vec![10, 20, 30, 40, 50, 60]));
    let y = ad.index_assign(x, vec![0..2, 1..2], v);
    assert_eq!(ad.to_data(y), data(vec![2, 3], vec![1, 7, 3, 4, 8, 6]));
    assert_eq!(ad.to_data(x), data(vec![2, 3], vec![1, 2, 3, 4, 5, 6]));
    let p = ad.mul(y, w);
    let grads = ad.backward(p);
    assert_eq!(grad_of(&ad, x, &grads), Some(vec![10, 0, 30, 40, 0, 60]));
    assert_eq!(grad_of(&ad, v, &grads), Some(vec![20, 50]));
    assert_eq!(grad_dims(&ad, v, &grads), Some(vec![2, 1]));
}

#[test]
fn gradient_of_embedding_counts_lookups() {
    let mut ad = AD::new(DenseDevice);
    let weights = ad.from_data(data(vec![3, 2], vec![10, 11, 20, 21, 30, 31]));
    let indexes = ad.from_data(data(vec![2, 2], vec![2, 0, 2, 1]));
    let out = ad.embedding(weights, indexes);
    assert_eq!(ad.to_data(out), data(vec![2, 2, 2], vec![30, 31, 10, 11, 30, 31, 20, 21]));
    let grads = ad.backward(out);
    assert_eq!(grad_of(&ad, weights, &grads), Some(vec![1, 1, 1, 1, 2, 2]));
    assert_eq!(grad_of(&ad, indexes, &grads), None);
}

#[test]
fn from_primitive_takes_a_backend_tensor() {
    let mut ad = AD::new(DenseDevice);
    let value: DenseTensor = DenseBackend::from_data(data(vec![2], vec![1, 2]), DenseDevice);
    let t = ad.from_primitive(value);
    assert_eq!(ad.to_data(t), data(vec![2], vec![1, 2]));
    assert_eq!(DenseBackend::to_data(ad.primitive(t)), data(vec![2], vec![1, 2]));
}
