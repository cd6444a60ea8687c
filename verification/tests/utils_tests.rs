use std::collections::HashMap;

use kniffel::utils::{count_unique_elements, set_slice_from_vec, vecs_elementwise_equal};

#[test]
fn test_elementwise_eq() {
    let a = vec![1, 1, 2, 3];
    let same = vec![1, 1, 2, 3];
    let too_long = vec![1, 1, 2, 3, 4];
    let diff_elements = vec![1, 1, 2, 4];
    let diff_order = vec![1, 2, 1, 3];

    assert!(vecs_elementwise_equal(&a, &same));
    assert!(!vecs_elementwise_equal(&a, &too_long));
    assert!(!vecs_elementwise_equal(&a, &diff_elements));
    assert!(!vecs_elementwise_equal(&a, &diff_order));
}

#[test]
fn test_count_unique_elements() {
    let a = vec![1, 1, 2, 1, 3, 3, 4];
    let uniqe_counts = count_unique_elements(&a);
    let should_be: HashMap<i32, usize> =
        [(1, 3), (2, 1), (3, 2), (4, 1)].iter().cloned().collect();
    assert_eq!(uniqe_counts, should_be);
}

#[test]
fn test_set_slice_from_vec() {
    let mut dest = vec![0, 0, 0, 0, 0];
    set_slice_from_vec(&mut dest, vec![4, 4], 0);
    assert_eq!(dest, vec![4, 4, 0, 0, 0]);
    set_slice_from_vec(&mut dest, vec![5, 6, 1], 2);
    assert_eq!(dest, vec![4, 4, 5, 6, 1]);
}
