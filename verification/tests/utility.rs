use xdp::utility::{ifindex, is_power_of_two, page_size, split_array, AlignUp};
use xdp::Error;

#[test]
fn align_up_keeps_multiples() {
    assert_eq!(u32::align_up(0, 8), 0);
    assert_eq!(u32::align_up(8, 8), 8);
    assert_eq!(u32::align_up(16, 8), 16);
    assert_eq!(usize::align_up(4096, 4096), 4096);
}

#[test]
fn align_up_rounds_to_next_multiple() {
    assert_eq!(u32::align_up(1, 8), 8);
    assert_eq!(u32::align_up(9, 8), 16);
    assert_eq!(u32::align_up(17, 8), 24);
    assert_eq!(u32::align_up(10, 3), 12);
    assert_eq!(usize::align_up(1, 4096), 4096);
    assert_eq!(usize::align_up(4097, 4096), 8192);
}

#[test]
fn align_up_with_bound_one_is_identity() {
    assert_eq!(u32::align_up(0, 1), 0);
    assert_eq!(u32::align_up(77, 1), 77);
    assert_eq!(u32::align_up(u32::MAX, 1), u32::MAX);
    assert_eq!(usize::align_up(usize::MAX, 1), usize::MAX);
}

#[test]
fn align_up_at_the_top() {
    assert_eq!(u32::align_up(u32::MAX - 7, 8), u32::MAX - 7);
    assert_eq!(u32::align_up(u32::MAX - 14, 8), u32::MAX - 7);
}

#[test]
fn align_up_result_is_in_range() {
    for n in 0u32..200 {
        for bound in 1u32..20 {
            let r = u32::align_up(n, bound);
            assert_eq!(r % bound, 0);
            assert!(n <= r);
            assert!(r < n + bound);
        }
    }
}

#[test]
fn power_of_two_is_recognised() {
    assert!(is_power_of_two(1));
    assert!(is_power_of_two(2));
    assert!(is_power_of_two(4096));
    assert!(is_power_of_two(1 << 31));
    assert!(!is_power_of_two(0));
    assert!(!is_power_of_two(3));
    assert!(!is_power_of_two(6));
    assert!(!is_power_of_two(4097));
    assert!(!is_power_of_two(usize::MAX));
    for n in 0usize..5000 {
        assert_eq!(is_power_of_two(n), n.is_power_of_two());
    }
}

#[test]
fn page_size_accepts_positive() {
    assert_eq!(page_size(4096), Ok(4096));
    assert_eq!(page_size(1), Ok(1));
    assert_eq!(page_size(65536), Ok(65536));
}

#[test]
fn page_size_rejects_zero_and_negative() {
    assert_eq!(page_size(0), Err(Error::PageSizeInvalid));
    assert_eq!(page_size(-1), Err(Error::PageSizeInvalid));
    assert_eq!(page_size(i64::MIN), Err(Error::PageSizeInvalid));
}

#[test]
fn ifindex_accepts_non_zero() {
    assert_eq!(ifindex(1), Ok(1));
    assert_eq!(ifindex(42), Ok(42));
    assert_eq!(ifindex(u32::MAX), Ok(u32::MAX));
}

#[test]
fn ifindex_rejects_zero() {
    assert_eq!(ifindex(0), Err(Error::InterfaceInvalid));
}

#[test]
fn split_array_in_the_middle() {
    let (left, right): ([u8; 2], [u8; 3]) = split_array([1u8, 2, 3, 4, 5]);
    assert_eq!(left, [1, 2]);
    assert_eq!(right, [3, 4, 5]);
}

#[test]
fn split_array_at_the_ends() {
    let (left, right): ([u32; 0], [u32; 3]) = split_array([7u32, 8, 9]);
    assert_eq!(left, []);
    assert_eq!(right, [7, 8, 9]);
    let (left, right): ([u32; 3], [u32; 0]) = split_array([7u32, 8, 9]);
    assert_eq!(left, [7, 8, 9]);
    assert_eq!(right, []);
    let (left, right): ([char; 0], [char; 0]) = split_array([]);
    assert_eq!(left, []);
    assert_eq!(right, []);
}

#[test]
fn split_array_of_a_record() {
    let mut octets = [0u8; 24];
    for (i, octet) in octets.iter_mut().enumerate() {
        *octet = i as u8;
    }
    let (head, address): ([u8; 8], [u8; 16]) = split_array(octets);
    assert_eq!(head, [0, 1, 2, 3, 4, 5, 6, 7]);
    assert_eq!(address, [8, 9, 10, 11, 12, 13, 14, 15, 16, 17, 18, 19, 20, 21, 22, 23]);
}
