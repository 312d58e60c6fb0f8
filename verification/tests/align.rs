use viaptr::align::next_power_of_two;
use viaptr::align::power_of_two;
use viaptr::align::trailing_zeros;
use viaptr::max;
use viaptr::min;

#[test]
fn min_and_max_pick_one_of_the_two() {
    assert_eq!(min(3, 9), 3);
    assert_eq!(min(9, 3), 3);
    assert_eq!(min(4, 4), 4);
    assert_eq!(max(3, 9), 9);
    assert_eq!(max(9, 3), 9);
    assert_eq!(max(4, 4), 4);
    assert_eq!(min(0, usize::MAX), 0);
    assert_eq!(max(0, usize::MAX), usize::MAX);
}

#[test]
fn power_of_two_accepts_single_bits_only() {
    assert!(!power_of_two(0));
    assert!(power_of_two(1));
    assert!(power_of_two(2));
    assert!(!power_of_two(3));
    assert!(power_of_two(64));
    assert!(!power_of_two(96));
    assert!(power_of_two(1 << (usize::BITS - 1)));
    assert!(!power_of_two(usize::MAX));
}

#[test]
fn power_of_two_agrees_with_the_standard_library() {
    let mut n: usize = 0;
    while n < 5000 {
        assert_eq!(power_of_two(n), n.is_power_of_two());
        n += 1;
    }
}

#[test]
fn trailing_zeros_is_the_exponent() {
    assert_eq!(trailing_zeros(1), 0);
    assert_eq!(trailing_zeros(2), 1);
    assert_eq!(trailing_zeros(64), 6);
    assert_eq!(trailing_zeros(1 << (usize::BITS - 1)), usize::BITS - 1);
    let mut k: u32 = 0;
    while k < usize::BITS {
        assert_eq!(trailing_zeros(1usize << k), (1usize << k).trailing_zeros());
        k += 1;
    }
}

#[test]
fn next_power_of_two_is_the_least_that_suffices() {
    assert_eq!(next_power_of_two(0), 1);
    assert_eq!(next_power_of_two(1), 1);
    assert_eq!(next_power_of_two(2), 2);
    assert_eq!(next_power_of_two(3), 4);
    assert_eq!(next_power_of_two(42), 64);
    assert_eq!(next_power_of_two(64), 64);
    assert_eq!(next_power_of_two(65), 128);
    let top: usize = 1 << (usize::BITS - 1);
    assert_eq!(next_power_of_two(top), top);
    assert_eq!(next_power_of_two(top - 1), top);
    let mut n: usize = 0;
    while n < 5000 {
        assert_eq!(next_power_of_two(n), n.next_power_of_two());
        n += 1;
    }
}
