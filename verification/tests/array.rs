use db_shm_manager::array::{shape_size, zero_bytes, DenseArray};

#[test]
fn from_shape_vec_takes_matching_data() {
    let a = DenseArray::from_shape_vec(vec![2, 3], vec![1, 2, 3, 4, 5, 6]).unwrap();
    assert_eq!(a.shape(), &vec![2, 3]);
    assert_eq!(a.data(), &vec![1, 2, 3, 4, 5, 6]);
    assert_eq!(a.len(), 6);
}

#[test]
fn from_shape_vec_refuses_data_of_another_length() {
    assert_eq!(DenseArray::from_shape_vec(vec![2, 3], vec![1, 2, 3, 4, 5]), None);
    assert_eq!(DenseArray::from_shape_vec(vec![2, 3], vec![0; 7]), None);
    assert_eq!(DenseArray::from_shape_vec(vec![0, 3], vec![1]), None);
    assert_eq!(DenseArray::from_shape_vec(vec![], vec![]), None);
}

#[test]
fn from_shape_vec_without_axes_holds_one_element() {
    let a = DenseArray::from_shape_vec(vec![], vec![5]).unwrap();
    assert_eq!(a.len(), 1);
    assert_eq!(a.shape().len(), 0);
}

#[test]
fn from_shape_vec_refuses_a_shape_too_large() {
    assert_eq!(DenseArray::from_shape_vec(vec![usize::MAX, 2], vec![]), None);
    assert_eq!(DenseArray::from_shape_vec(vec![usize::MAX, 0], vec![]), None);
}

#[test]
fn zeros_has_the_shape_and_only_zeros() {
    let a = DenseArray::zeros(vec![2, 2, 1]).unwrap();
    assert_eq!(a.shape(), &vec![2, 2, 1]);
    assert_eq!(a.data(), &vec![0, 0, 0, 0]);
    let empty = DenseArray::zeros(vec![4, 0]).unwrap();
    assert_eq!(empty.len(), 0);
    assert_eq!(DenseArray::zeros(vec![usize::MAX, 3]), None);
}

#[test]
fn shape_size_is_the_product_of_the_axes() {
    assert_eq!(shape_size(&vec![]), Some(1));
    assert_eq!(shape_size(&vec![7]), Some(7));
    assert_eq!(shape_size(&vec![1080, 1920, 3]), Some(6220800));
    assert_eq!(shape_size(&vec![5, 0, 3]), Some(0));
    assert_eq!(shape_size(&vec![0]), Some(0));
}

#[test]
fn shape_size_goes_by_the_axes_that_are_not_zero() {
    let most = isize::MAX as usize;
    assert_eq!(shape_size(&vec![most]), Some(most));
    assert_eq!(shape_size(&vec![most, 1, 1]), Some(most));
    assert_eq!(shape_size(&vec![most, 0]), Some(0));
    assert_eq!(shape_size(&vec![most + 1]), None);
    assert_eq!(shape_size(&vec![most + 1, 0]), None);
    assert_eq!(shape_size(&vec![0, most, 2]), None);
    assert_eq!(shape_size(&vec![usize::MAX, usize::MAX]), None);
    assert_eq!(shape_size(&vec![1 << 32, 1 << 31]), None);
    assert_eq!(shape_size(&vec![1 << 31, 1 << 31]), Some(1 << 62));
}

#[test]
fn zero_bytes_are_zero() {
    assert_eq!(zero_bytes(0), Vec::<u8>::new());
    assert_eq!(zero_bytes(5), vec![0u8; 5]);
}
