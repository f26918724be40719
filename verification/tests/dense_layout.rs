use burn_tensor::data::Data;
use burn_tensor::dense::{DenseBackend, DenseDevice, DenseTensor};
use burn_tensor::ops::{
    slice_ranges, Backend, ModuleOps, TensorOps, TensorOpsAggregation, TensorOpsArg, TensorOpsCat,
};
use burn_tensor::shape::Shape;

fn tensor(dims: Vec<usize>, values: Vec<i64>) -> DenseTensor {
    DenseBackend::from_data(Data::new(values, Shape::new(dims)), DenseDevice)
}

fn values(t: &DenseTensor) -> Vec<i64> {
    DenseBackend::to_data(t).value
}

fn dims(t: &DenseTensor) -> Vec<usize> {
    DenseBackend::to_data(t).shape.dims
}

#[test]
fn matmul_of_two_matrices() {
    let a = tensor(vec![2, 2], vec![1, 7, 2, 3]);
    let b = tensor(vec![2, 2], vec![4, 7, 2, 3]);
    let c = DenseBackend::matmul(&a, &b);
    assert_eq!(values(&c), vec![18, 28, 14, 23]);
    assert_eq!(dims(&c), vec![2, 2]);
}

#[test]
fn matmul_of_rectangular_matrices() {
    let a = tensor(vec![2, 3], vec![1, 2, 3, 4, 5, 6]);
    let b = tensor(vec![3, 1], vec![1, 0, -1]);
    let c = DenseBackend::matmul(&a, &b);
    assert_eq!(values(&c), vec![-2, -2]);
    assert_eq!(dims(&c), vec![2, 1]);
}

#[test]
fn matmul_is_batched_over_leading_dimensions() {
    let a = tensor(vec![2, 1, 2], vec![1, 2, 5, 6]);
    let b = tensor(vec![2, 2, 1], vec![3, 4, 7, 8]);
    let c = DenseBackend::matmul(&a, &b);
    assert_eq!(values(&c), vec![11, 83]);
    assert_eq!(dims(&c), vec![2, 1, 1]);
}

#[test]
fn matmul_with_empty_inner_dimension_is_zero() {
    let a = tensor(vec![2, 0], vec![]);
    let b = tensor(vec![0, 3], vec![]);
    let c = DenseBackend::matmul(&a, &b);
    assert_eq!(values(&c), vec![0; 6]);
    assert_eq!(dims(&c), vec![2, 3]);
}

#[test]
fn transpose_swaps_the_last_two_dimensions() {
    let a = tensor(vec![2, 3], vec![1, 2, 3, 4, 5, 6]);
    let t = DenseBackend::transpose(&a);
    assert_eq!(values(&t), vec![1, 4, 2, 5, 3, 6]);
    assert_eq!(dims(&t), vec![3, 2]);
    let back = DenseBackend::transpose(&t);
    assert_eq!(values(&back), vec![1, 2, 3, 4, 5, 6]);
}

#[test]
fn swap_dims_of_rank_three() {
    let a = tensor(vec![2, 1, 3], vec![0, 1, 2, 3, 4, 5]);
    let s = DenseBackend::swap_dims(&a, 0, 2);
    assert_eq!(values(&s), vec![0, 3, 1, 4, 2, 5]);
    assert_eq!(dims(&s), vec![3, 1, 2]);
    let same = DenseBackend::swap_dims(&a, 1, 1);
    assert_eq!(values(&same), vec![0, 1, 2, 3, 4, 5]);
    assert_eq!(dims(&same), vec![2, 1, 3]);
}

#[test]
fn reshape_keeps_the_buffer() {
    let a = tensor(vec![2, 3], vec![1, 2, 3, 4, 5, 6]);
    let r = DenseBackend::reshape(&a, Shape::new(vec![3, 2, 1]));
    assert_eq!(values(&r), vec![1, 2, 3, 4, 5, 6]);
    assert_eq!(dims(&r), vec![3, 2, 1]);
}

#[test]
fn index_reads_a_region() {
    let a = tensor(vec![3, 3], vec![1, 2, 3, 4, 5, 6, 7, 8, 9]);
    let r = DenseBackend::index(&a, vec![1..3, 0..2]);
    assert_eq!(values(&r), vec![4, 5, 7, 8]);
    assert_eq!(dims(&r), vec![2, 2]);
}

#[test]
fn index_with_fewer_ranges_takes_the_rest_whole() {
    let a = tensor(vec![3, 3], vec![1, 2, 3, 4, 5, 6, 7, 8, 9]);
    let r = DenseBackend::index(&a, vec![2..3]);
    assert_eq!(values(&r), vec![7, 8, 9]);
    assert_eq!(dims(&r), vec![1, 3]);
    let all = DenseBackend::index(&a, vec![]);
    assert_eq!(values(&all), vec![1, 2, 3, 4, 5, 6, 7, 8, 9]);
    let none = DenseBackend::index(&a, vec![1..1, 0..3]);
    assert_eq!(values(&none), Vec::<i64>::new());
    assert_eq!(dims(&none), vec![0, 3]);
}

#[test]
fn index_assign_writes_a_region_into_a_new_tensor() {
    let a = tensor(vec![2, 3], vec![0; 6]);
    let v = tensor(vec![2, 1], vec![7, 8]);
    let r = DenseBackend::index_assign(&a, vec![0..2, 1..2], &v);
    assert_eq!(values(&r), vec![0, 7, 0, 0, 8, 0]);
    assert_eq!(dims(&r), vec![2, 3]);
    assert_eq!(values(&a), vec![0; 6]);
}

#[test]
fn index_assign_then_index_reads_the_value_back() {
    let a = tensor(vec![3, 3], vec![1, 2, 3, 4, 5, 6, 7, 8, 9]);
    let v = tensor(vec![2, 2], vec![-1, -2, -3, -4]);
    let r = DenseBackend::index_assign(&a, vec![1..3, 1..3], &v);
    assert_eq!(values(&r), vec![1, 2, 3, 4, -1, -2, 7, -3, -4]);
    let back = DenseBackend::index(&r, vec![1..3, 1..3]);
    assert_eq!(values(&back), vec![-1, -2, -3, -4]);
}

#[test]
fn repeat_copies_the_single_slice() {
    let a = tensor(vec![2, 1], vec![5, 6]);
    let r = DenseBackend::repeat(&a, 1, 3);
    assert_eq!(values(&r), vec![5, 5, 5, 6, 6, 6]);
    assert_eq!(dims(&r), vec![2, 3]);
    let b = tensor(vec![1, 2], vec![1, 2]);
    let r = DenseBackend::repeat(&b, 0, 2);
    assert_eq!(values(&r), vec![1, 2, 1, 2]);
    assert_eq!(dims(&r), vec![2, 2]);
}

#[test]
fn every_slice_of_a_repeat_is_the_repeated_tensor() {
    let a = tensor(vec![2, 1, 2], vec![1, 2, 3, 4]);
    let r = DenseBackend::repeat(&a, 1, 4);
    assert_eq!(dims(&r), vec![2, 4, 2]);
    for i in 0..4 {
        let ranges = slice_ranges(&vec![2, 4, 2], 1, i);
        let slice = DenseBackend::index(&r, ranges);
        assert_eq!(values(&slice), vec![1, 2, 3, 4]);
        assert_eq!(dims(&slice), vec![2, 1, 2]);
    }
}

#[test]
fn repeat_once_and_never() {
    let a = tensor(vec![1, 2], vec![8, 9]);
    let once = DenseBackend::repeat(&a, 0, 1);
    assert_eq!(values(&once), vec![8, 9]);
    assert_eq!(dims(&once), vec![1, 2]);
    let never = DenseBackend::repeat(&a, 0, 0);
    assert_eq!(values(&never), Vec::<i64>::new());
    assert_eq!(dims(&never), vec![0, 2]);
}

#[test]
fn slice_ranges_select_one_position() {
    assert_eq!(slice_ranges(&vec![2, 4, 2], 1, 3), vec![0..2, 3..4, 0..2]);
}

#[test]
fn sum_and_mean_of_all_elements() {
    let a = tensor(vec![2, 2], vec![1, 2, 3, 4]);
    assert_eq!(values(&a.sum()), vec![10]);
    assert_eq!(dims(&a.sum()), vec![1]);
    assert_eq!(values(&a.mean()), vec![2]);
    assert_eq!(dims(&a.mean()), vec![1]);
    let b = tensor(vec![2], vec![-7, 0]);
    assert_eq!(values(&b.mean()), vec![-3]);
    let none = tensor(vec![0], vec![]);
    assert_eq!(values(&none.sum()), vec![0]);
}

#[test]
fn sum_wraps_around() {
    let a = tensor(vec![3], vec![i64::MAX, 1, 5]);
    assert_eq!(values(&a.sum()), vec![i64::MIN + 5]);
}

#[test]
fn sum_and_mean_along_a_dimension_keep_it_with_size_one() {
    let a = tensor(vec![2, 3], vec![1, 2, 3, 4, 5, 6]);
    let rows = a.sum_dim(0);
    assert_eq!(values(&rows), vec![5, 7, 9]);
    assert_eq!(dims(&rows), vec![1, 3]);
    let cols = a.sum_dim(1);
    assert_eq!(values(&cols), vec![6, 15]);
    assert_eq!(dims(&cols), vec![2, 1]);
    let mean = a.mean_dim(1);
    assert_eq!(values(&mean), vec![2, 5]);
    assert_eq!(dims(&mean), vec![2, 1]);
    let mean = a.mean_dim(0);
    assert_eq!(values(&mean), vec![2, 3, 4]);
}

#[test]
fn sum_along_an_empty_dimension_is_zero() {
    let a = tensor(vec![2, 0], vec![]);
    let s = a.sum_dim(1);
    assert_eq!(values(&s), vec![0, 0]);
    assert_eq!(dims(&s), vec![2, 1]);
}

#[test]
fn argmax_and_argmin_take_the_first_of_equals() {
    let a = tensor(vec![2, 3], vec![1, 9, 9, 4, 2, 0]);
    assert_eq!(values(&a.argmax(1)), vec![1, 0]);
    assert_eq!(dims(&a.argmax(1)), vec![2, 1]);
    assert_eq!(values(&a.argmin(1)), vec![0, 2]);
    assert_eq!(values(&a.argmax(0)), vec![1, 0, 0]);
    assert_eq!(dims(&a.argmax(0)), vec![1, 3]);
    assert_eq!(values(&a.argmin(0)), vec![0, 1, 1]);
    let flat = tensor(vec![4], vec![3, 3, 3, 3]);
    assert_eq!(values(&flat.argmax(0)), vec![0]);
    assert_eq!(values(&flat.argmin(0)), vec![0]);
}

#[test]
fn cat_along_the_first_dimension() {
    let a = tensor(vec![1, 2], vec![1, 2]);
    let b = tensor(vec![2, 2], vec![3, 4, 5, 6]);
    let c = DenseTensor::cat(vec![&a, &b], 0);
    assert_eq!(values(&c), vec![1, 2, 3, 4, 5, 6]);
    assert_eq!(dims(&c), vec![3, 2]);
}

#[test]
fn cat_along_the_last_dimension() {
    let a = tensor(vec![2, 1], vec![1, 2]);
    let b = tensor(vec![2, 2], vec![3, 4, 5, 6]);
    let c = DenseTensor::cat(vec![&a, &b, &a], 1);
    assert_eq!(values(&c), vec![1, 3, 4, 1, 2, 5, 6, 2]);
    assert_eq!(dims(&c), vec![2, 4]);
}

#[test]
fn cat_of_one_tensor_is_that_tensor() {
    let a = tensor(vec![2, 2], vec![1, 2, 3, 4]);
    let c = DenseTensor::cat(vec![&a], 1);
    assert_eq!(values(&c), vec![1, 2, 3, 4]);
    assert_eq!(dims(&c), vec![2, 2]);
}

#[test]
fn embedding_gathers_rows() {
    let weights = tensor(vec![3, 2], vec![10, 11, 20, 21, 30, 31]);
    let indexes = tensor(vec![2, 2], vec![2, 0, 2, 1]);
    let out = DenseBackend::embedding(&weights, &indexes);
    assert_eq!(values(&out), vec![30, 31, 10, 11, 30, 31, 20, 21]);
    assert_eq!(dims(&out), vec![2, 2, 2]);
}

#[test]
fn embedding_backward_counts_occurrences_under_ones() {
    let weights = tensor(vec![4, 2], vec![10, 11, 20, 21, 30, 31, 40, 41]);
    let indexes = tensor(vec![2, 2], vec![2, 0, 2, 1]);
    let out = DenseBackend::embedding(&weights, &indexes);
    let ones = DenseTensor::full(Shape::new(dims(&out)), 1);
    let grad = DenseBackend::embedding_backward(&weights, &ones, &indexes);
    assert_eq!(values(&grad), vec![1, 1, 1, 1, 2, 2, 0, 0]);
    assert_eq!(dims(&grad), vec![4, 2]);
}

#[test]
fn embedding_backward_adds_up_duplicates() {
    let weights = tensor(vec![3, 2], vec![0; 6]);
    let indexes = tensor(vec![2, 2], vec![2, 0, 2, 1]);
    let upstream = tensor(vec![2, 2, 2], vec![1, 2, 3, 4, 5, 6, 7, 8]);
    let grad = DenseBackend::embedding_backward(&weights, &upstream, &indexes);
    assert_eq!(values(&grad), vec![3, 4, 7, 8, 6, 8]);
}
