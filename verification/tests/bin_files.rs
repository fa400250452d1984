use octatools::bin_files::get_bytes_slice;

#[test]
fn test_no_options() {
    let data: Vec<u8> = vec![1, 2, 3];
    let r = get_bytes_slice(data, &None, &None);
    assert_eq!(r, vec![1, 2, 3]);
}

#[test]
fn test_no_options_one_byte_data() {
    let data: Vec<u8> = vec![1];
    let r = get_bytes_slice(data, &None, &None);
    assert_eq!(r, vec![1]);
}

#[test]
fn test_non_zero_start() {
    let data: Vec<u8> = vec![1, 2, 3, 4, 5];
    let r = get_bytes_slice(data, &Some(1), &None);
    assert_eq!(r, vec![2, 3, 4, 5]);
}

#[test]
fn test_non_zero_end() {
    let data: Vec<u8> = vec![1, 2, 3, 4, 5];
    let r = get_bytes_slice(data, &None, &Some(3));
    assert_eq!(r, vec![1, 2, 3]);
}

#[test]
fn test_non_zero_start_and_end() {
    let data: Vec<u8> = vec![1, 2, 3, 4, 5];
    let r = get_bytes_slice(data, &Some(1), &Some(3));
    assert_eq!(r, vec![2, 3, 4]);
}

#[test]
fn bytes_slice_edges() {
    assert_eq!(get_bytes_slice(vec![1, 2, 3], &Some(3), &None), Vec::<u8>::new());
    assert_eq!(get_bytes_slice(vec![1, 2, 3], &Some(1), &Some(0)), Vec::<u8>::new());
    assert_eq!(get_bytes_slice(vec![1, 2, 3], &Some(0), &Some(3)), vec![1, 2, 3]);
}
