use viaptr::compact::Compact;
use viaptr::Bits;
use viaptr::NestOption;
use viaptr::Null;
use viaptr::Pointer;

type Tagged = Result<((), Bits<4>), NestOption<Bits<7>>>;

fn tagged(tag: usize) -> Tagged {
    Ok(((), Bits::<4>::new_masked(tag)))
}

fn absent() -> Tagged {
    Err(NestOption(None))
}

#[test]
fn box_hands_back_what_went_in() {
    assert!(<Tagged as Pointer>::check());
    assert_eq!(Compact::<usize>::new(17).into_inner(), 17);
    assert_eq!(Compact::<usize>::new(0).into_inner(), 0);
    assert_eq!(Compact::<usize>::new(usize::MAX).into_inner(), usize::MAX);
    assert_eq!(Compact::<Tagged>::new(tagged(9)).into_inner(), tagged(9));
    assert_eq!(Compact::<Tagged>::new(absent()).into_inner(), absent());
    assert_eq!(Compact::<Option<()>>::new(None).into_inner(), None);
    assert_eq!(Compact::<Null>::new(Null).into_inner(), Null);
}

#[test]
fn box_is_one_word_wide() {
    assert_eq!(
        std::mem::size_of::<Compact<Tagged>>(),
        std::mem::size_of::<usize>()
    );
}

#[test]
fn view_leaves_the_value_in_the_box() {
    let boxed = Compact::<Tagged>::new(tagged(3));
    assert_eq!(*boxed.get_ref(), tagged(3));
    assert_eq!(*boxed.get_ref().borrow(), tagged(3));
    assert_eq!(*boxed.get_ref(), tagged(3));
    assert_eq!(boxed.into_inner(), tagged(3));
}

#[test]
fn handle_writes_back_when_released() {
    let mut boxed = Compact::<Tagged>::new(tagged(3));
    let mut handle = boxed.get_mut();
    assert_eq!(*handle, tagged(3));
    assert_eq!(handle.set(absent()), tagged(3));
    assert_eq!(*handle.borrow(), absent());
    handle.release();
    assert_eq!(*boxed.get_ref(), absent());
    assert_eq!(boxed.into_inner(), absent());
}

#[test]
fn handle_changes_the_value_in_place() {
    let mut boxed = Compact::<usize>::new(40);
    let mut handle = boxed.get_mut();
    *handle += 1;
    *handle.borrow_mut() += 1;
    assert_eq!(*handle, 42);
    handle.release();
    assert_eq!(boxed.into_inner(), 42);
}

#[test]
fn handle_released_unchanged_changes_nothing() {
    let mut boxed = Compact::<Tagged>::new(tagged(12));
    boxed.get_mut().release();
    assert_eq!(boxed.into_inner(), tagged(12));
}

#[test]
fn handle_dropped_without_release_leaves_the_box_alone() {
    let mut boxed = Compact::<usize>::new(5);
    {
        let mut handle = boxed.get_mut();
        assert_eq!(handle.set(6), 5);
    }
    assert_eq!(boxed.into_inner(), 5);
}

#[test]
fn clone_leaves_the_source_unchanged() {
    let boxed = Compact::<Tagged>::new(tagged(7));
    let other = boxed.clone();
    assert_eq!(*boxed.get_ref(), tagged(7));
    assert_eq!(other.into_inner(), tagged(7));
    assert_eq!(boxed.into_inner(), tagged(7));
}

#[test]
fn clone_is_a_box_of_its_own() {
    let boxed = Compact::<usize>::new(1);
    let mut other = boxed.clone();
    let mut handle = other.get_mut();
    assert_eq!(handle.set(2), 1);
    handle.release();
    assert_eq!(boxed.into_inner(), 1);
    assert_eq!(other.into_inner(), 2);
}
