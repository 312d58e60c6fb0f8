use viaptr::shy_atomic::ShyAtomic;
use viaptr::Bits;
use viaptr::Null;
use viaptr::Pointer;

type Tagged = Result<((), Bits<4>), Null>;

fn tagged(tag: usize) -> Tagged {
    Ok(((), Bits::<4>::new_masked(tag)))
}

#[test]
fn swap_hands_out_the_previous_value() {
    let slot = ShyAtomic::<usize>::new(1);
    assert_eq!(slot.swap(2), 1);
    assert_eq!(slot.swap(3), 2);
    assert_eq!(slot.swap(3), 3);
    assert_eq!(slot.into_inner(), 3);
}

#[test]
fn swap_of_tagged_values() {
    assert!(<Tagged as Pointer>::check());
    let slot = ShyAtomic::<Tagged>::new(tagged(1));
    assert_eq!(slot.swap(Err(Null)), tagged(1));
    assert_eq!(slot.swap(tagged(15)), Err(Null));
    assert_eq!(slot.into_inner(), tagged(15));
}

#[test]
fn store_replaces_the_value() {
    let slot = ShyAtomic::<usize>::new(1);
    slot.store(9);
    assert_eq!(slot.swap(0), 9);
    slot.store(4);
    assert_eq!(slot.into_inner(), 4);
}

#[test]
fn into_inner_hands_out_the_last_value() {
    assert_eq!(ShyAtomic::<usize>::new(77).into_inner(), 77);
    assert_eq!(ShyAtomic::<Tagged>::new(tagged(0)).into_inner(), tagged(0));
}

#[test]
fn compare_exchange_succeeds_on_the_expected_value() {
    let slot = ShyAtomic::<usize>::new(10);
    assert_eq!(slot.compare_exchange(&10, 20), Ok(10));
    assert_eq!(slot.into_inner(), 20);
}

#[test]
fn compare_exchange_fails_on_another_value_and_returns_the_new_one() {
    let slot = ShyAtomic::<usize>::new(10);
    assert_eq!(slot.compare_exchange(&10, 20), Ok(10));
    assert_eq!(slot.compare_exchange(&10, 30), Err(30));
    assert_eq!(slot.swap(0), 20);
}

#[test]
fn compare_exchange_of_tagged_values() {
    let slot = ShyAtomic::<Tagged>::new(tagged(1));
    assert_eq!(slot.compare_exchange(&tagged(2), Err(Null)), Err(Err(Null)));
    assert_eq!(slot.compare_exchange(&tagged(1), Err(Null)), Ok(tagged(1)));
    assert_eq!(slot.compare_exchange(&tagged(1), tagged(3)), Err(tagged(3)));
    assert_eq!(slot.compare_exchange(&Err(Null), tagged(3)), Ok(Err(Null)));
    assert_eq!(slot.into_inner(), tagged(3));
}

#[test]
fn settle_decodes_the_word_that_came_out() {
    assert_eq!(ShyAtomic::<usize>::settle(Ok(5), 7), Ok(5));
    assert_eq!(ShyAtomic::<usize>::settle(Err(5), 7), Err(7));
    let one = <Tagged as Pointer>::into_ptr(tagged(1));
    let two = <Tagged as Pointer>::into_ptr(tagged(2));
    assert_eq!(ShyAtomic::<Tagged>::settle(Ok(one), two), Ok(tagged(1)));
    assert_eq!(ShyAtomic::<Tagged>::settle(Err(one), two), Err(tagged(2)));
}

#[test]
fn swaps_neither_lose_nor_repeat_a_value() {
    let slot = ShyAtomic::<usize>::new(0);
    let rounds: usize = 1000;
    let mut seen: Vec<usize> = Vec::new();
    let mut next: usize = 1;
    while next <= rounds {
        seen.push(slot.swap(next));
        next += 1;
    }
    seen.push(slot.into_inner());
    seen.sort();
    let expected: Vec<usize> = (0..=rounds).collect();
    assert_eq!(seen, expected);
}
