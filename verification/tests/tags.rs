use viaptr::Bits;
use viaptr::Eval;
use viaptr::FitsInUsize;
use viaptr::Num;

#[test]
fn bits_new_accepts_values_that_fit() {
    assert_eq!(Bits::<3>::new(0).map(|b| b.value()), Some(0));
    assert_eq!(Bits::<3>::new(5).map(|b| b.value()), Some(5));
    assert_eq!(Bits::<3>::new(7).map(|b| b.value()), Some(7));
}

#[test]
fn bits_new_rejects_values_that_do_not_fit() {
    assert_eq!(Bits::<3>::new(8), None);
    assert_eq!(Bits::<3>::new(9), None);
    assert_eq!(Bits::<3>::new(usize::MAX), None);
}

#[test]
fn bits_new_of_width_zero_holds_only_zero() {
    assert_eq!(Bits::<0>::new(0).map(|b| b.value()), Some(0));
    assert_eq!(Bits::<0>::new(1), None);
    assert_eq!(Bits::<0>::new_masked(17).value(), 0);
}

#[test]
fn bits_new_of_full_width_holds_every_word() {
    assert_eq!(Bits::<{ usize::BITS }>::mask(), usize::MAX);
    assert_eq!(
        Bits::<{ usize::BITS }>::new(usize::MAX).map(|b| b.value()),
        Some(usize::MAX)
    );
}

#[test]
fn bits_new_masked_keeps_the_low_bits() {
    assert_eq!(Bits::<3>::new_masked(13).value(), 5);
    assert_eq!(Bits::<3>::new_masked(8).value(), 0);
    assert_eq!(Bits::<3>::new_masked(7).value(), 7);
    assert_eq!(Bits::<5>::new_masked(usize::MAX).value(), 31);
}

#[test]
fn bits_mask_is_two_to_the_width_less_one() {
    assert_eq!(Bits::<0>::mask(), 0);
    assert_eq!(Bits::<1>::mask(), 1);
    assert_eq!(Bits::<5>::mask(), 31);
    assert_eq!(Bits::<20>::mask(), (1 << 20) - 1);
}

#[test]
fn bits_compare_by_value() {
    assert_eq!(Bits::<4>::new_masked(3), Bits::<4>::new_masked(19));
    assert!(Bits::<4>::new_masked(3) < Bits::<4>::new_masked(4));
}

#[test]
fn fits_in_usize_up_to_the_width_of_a_word() {
    assert!(FitsInUsize::<0>::check());
    assert!(FitsInUsize::<20>::check());
    assert!(FitsInUsize::<{ usize::BITS }>::check());
    assert!(!FitsInUsize::<{ usize::BITS + 1 }>::check());
}

#[test]
fn num_new_is_below_the_bound() {
    assert_eq!(Num::<42>::new(0).map(|n| n.value()), Some(0));
    assert_eq!(Num::<42>::new(41).map(|n| n.value()), Some(41));
    assert_eq!(Num::<42>::new(42), None);
    assert_eq!(Num::<42>::new(usize::MAX), None);
}

#[test]
fn num_new_with_no_values_rejects_everything() {
    assert_eq!(Num::<0>::new(0), None);
}

#[test]
fn num_new_saturating_clamps_to_the_largest() {
    assert_eq!(Num::<42>::new_saturating(7).value(), 7);
    assert_eq!(Num::<42>::new_saturating(41).value(), 41);
    assert_eq!(Num::<42>::new_saturating(42).value(), 41);
    assert_eq!(Num::<42>::new_saturating(usize::MAX).value(), 41);
    assert_eq!(Num::<1>::new_saturating(5).value(), 0);
}

#[test]
fn num_new_wrapping_takes_the_remainder() {
    assert_eq!(Num::<42>::new_wrapping(7).value(), 7);
    assert_eq!(Num::<42>::new_wrapping(42).value(), 0);
    assert_eq!(Num::<42>::new_wrapping(85).value(), 1);
    assert_eq!(Num::<42>::new_wrapping(usize::MAX).value(), usize::MAX % 42);
}

#[test]
fn num_new_unchecked_keeps_the_value() {
    assert_eq!(Num::<42>::new_unchecked(17).value(), 17);
}

#[test]
fn num_width_and_mask_cover_the_bound() {
    assert_eq!(Num::<42>::width(), 6);
    assert_eq!(Num::<42>::mask(), 63);
    assert_eq!(Num::<64>::width(), 6);
    assert_eq!(Num::<64>::mask(), 63);
    assert_eq!(Num::<65>::width(), 7);
    assert_eq!(Num::<65>::mask(), 127);
    assert_eq!(Num::<2>::width(), 1);
    assert_eq!(Num::<1>::width(), 0);
    assert_eq!(Num::<1>::mask(), 0);
}

#[test]
fn num_compares_by_value() {
    assert_eq!(Num::<42>::new_wrapping(43), Num::<42>::new_wrapping(1));
    assert!(Num::<42>::new_wrapping(1) < Num::<42>::new_wrapping(2));
}
