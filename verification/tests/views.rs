use viaptr::AlignedTo;
use viaptr::Bits;
use viaptr::CanFitNum;
use viaptr::CloneInPlace;
use viaptr::FreeBits;
use viaptr::MaybeOwned;
use viaptr::Null;
use viaptr::Num;
use viaptr::Pointer;

#[test]
fn maybe_owned_hands_out_what_it_wraps() {
    let wrapped = MaybeOwned::new(String::from("kept"));
    assert_eq!(wrapped.borrow(), "kept");
    assert_eq!(wrapped.len(), 4);
    assert_eq!(wrapped.assume_owned(), "kept");
}

#[test]
fn maybe_owned_map_applies_the_function() {
    let wrapped = MaybeOwned::new(20usize);
    assert_eq!(wrapped.map(|v| v + 1).assume_owned(), 21);
    let text = MaybeOwned::new(7usize).map(|v| format!("{v}"));
    assert_eq!(text.assume_owned(), "7");
}

#[test]
fn aligned_to_compares_with_the_alignment() {
    assert!(<() as AlignedTo<2>>::check_aligned());
    assert!(<() as AlignedTo<1>>::check_aligned());
    assert!(!<() as AlignedTo<3>>::check_aligned());
    assert!(!<() as AlignedTo<0>>::check_aligned());
    assert!(!<usize as AlignedTo<2>>::check_aligned());
    assert!(<usize as AlignedTo<1>>::check_aligned());
    assert!(<Bits<{ usize::BITS - 3 }> as AlignedTo<8>>::check_aligned());
    assert!(!<Bits<{ usize::BITS - 3 }> as AlignedTo<16>>::check_aligned());
}

#[test]
fn free_bits_counts_the_spare_bits() {
    assert!(FreeBits::<usize, 0>::check());
    assert!(!FreeBits::<usize, 1>::check());
    assert!(FreeBits::<(), { usize::BITS - 1 }>::check());
    assert!(!FreeBits::<(), { usize::BITS }>::check());
    assert!(FreeBits::<Bits<{ usize::BITS - 3 }>, 3>::check());
    assert!(!FreeBits::<Bits<{ usize::BITS - 3 }>, 4>::check());
}

#[test]
fn can_fit_num_compares_the_bound_with_the_alignment() {
    assert!(CanFitNum::<usize, 1>::check());
    assert!(!CanFitNum::<usize, 2>::check());
    assert!(CanFitNum::<Bits<{ usize::BITS - 3 }>, 8>::check());
    assert!(!CanFitNum::<Bits<{ usize::BITS - 3 }>, 9>::check());
    assert!(CanFitNum::<Null, 42>::check());
}

#[test]
fn clone_from_ptr_gives_the_value_again() {
    type Tagged = (Bits<3>, Num<5>);
    assert!(<Tagged as Pointer>::check());
    assert!(<Tagged as Pointer>::clone_in_place());
    let value: Tagged = (Bits::<3>::new_masked(6), Num::<5>::new_wrapping(4));
    let word = <Tagged as Pointer>::into_ptr(value);
    assert_eq!(<Tagged as CloneInPlace>::clone_from_ptr(word), value);
    <Tagged as CloneInPlace>::clone_in_place(&value);
    <Tagged as CloneInPlace>::clone_by_ptr(word);
    <Tagged as CloneInPlace>::drop_one(word);
    assert_eq!(<Tagged as Pointer>::from_ptr(word).assume_owned(), value);
}
