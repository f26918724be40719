use burn_tensor::data::Data;
use burn_tensor::shape::{checked_count, flatten, same_dims, unflatten, Shape};

#[test]
fn shape_counts_elements() {
    assert_eq!(Shape::new(vec![2, 3, 4]).num_elements(), 24);
    assert_eq!(Shape::new(vec![7]).num_elements(), 7);
    assert_eq!(Shape::new(vec![2, 3, 4]).rank(), 3);
}

#[test]
fn shape_of_rank_zero_has_one_element() {
    assert_eq!(Shape::new(vec![]).num_elements(), 1);
    assert_eq!(Shape::new(vec![]).rank(), 0);
}

#[test]
fn shape_with_empty_dimension_has_no_element() {
    assert_eq!(Shape::new(vec![3, 0, 5]).num_elements(), 0);
    assert_eq!(Shape::new(vec![usize::MAX, usize::MAX, 0]).checked_num_elements(), Some(0));
}

#[test]
fn shape_too_large_for_memory_is_reported() {
    assert_eq!(Shape::new(vec![usize::MAX, 2]).checked_num_elements(), None);
    assert_eq!(Shape::new(vec![usize::MAX, 1]).checked_num_elements(), Some(usize::MAX));
    assert_eq!(checked_count(&vec![1 << 32, 1 << 32]), None);
}

#[test]
fn shape_equality_is_by_dimensions() {
    assert!(Shape::new(vec![2, 3]).same(&Shape::new(vec![2, 3])));
    assert!(!Shape::new(vec![2, 3]).same(&Shape::new(vec![3, 2])));
    assert!(!Shape::new(vec![2, 3]).same(&Shape::new(vec![2, 3, 1])));
    assert!(same_dims(&vec![], &vec![]));
    assert_eq!(Shape::new(vec![4, 5]).clone(), Shape::new(vec![4, 5]));
}

#[test]
fn positions_are_row_major() {
    let dims = vec![2, 3, 4];
    assert_eq!(flatten(&dims, &vec![0, 0, 0]), 0);
    assert_eq!(flatten(&dims, &vec![0, 0, 3]), 3);
    assert_eq!(flatten(&dims, &vec![0, 1, 0]), 4);
    assert_eq!(flatten(&dims, &vec![1, 0, 0]), 12);
    assert_eq!(flatten(&dims, &vec![1, 2, 3]), 23);
    assert_eq!(unflatten(&dims, 23), vec![1, 2, 3]);
    assert_eq!(unflatten(&dims, 12), vec![1, 0, 0]);
    assert_eq!(unflatten(&dims, 5), vec![0, 1, 1]);
}

#[test]
fn positions_round_trip() {
    let dims = vec![3, 1, 2, 5];
    for pos in 0..30 {
        let idx = unflatten(&dims, pos);
        assert_eq!(idx.len(), 4);
        assert_eq!(flatten(&dims, &idx), pos);
    }
}

#[test]
fn data_keeps_buffer_and_shape() {
    let data = Data::new(vec![1i64, 2, 3, 4, 5, 6], Shape::new(vec![2, 3]));
    assert_eq!(data.value, vec![1, 2, 3, 4, 5, 6]);
    assert_eq!(data.shape, Shape::new(vec![2, 3]));
    let flags = Data::new(vec![true, false], Shape::new(vec![2]));
    assert_eq!(flags.value, vec![true, false]);
}
