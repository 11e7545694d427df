use logenough::ring::{pending_slots, successor};

#[test]
fn successor_wraps_at_the_end_of_the_ring() {
    assert_eq!(1, successor(0, 5));
    assert_eq!(4, successor(3, 5));
    assert_eq!(0, successor(4, 5));
    assert_eq!(0, successor(usize::MAX, 5));
    assert_eq!(0, successor(7, 5));
    assert_eq!(0, successor(0, 1));
    assert_eq!(0, successor(3, 0));
}

#[test]
fn pending_slots_in_order_without_the_writer() {
    assert_eq!(vec![1usize, 2, 3], pending_slots(1, 4, 6));
    assert_eq!(vec![4usize, 5, 0, 1], pending_slots(4, 2, 6));
    assert_eq!(Vec::<usize>::new(), pending_slots(3, 3, 6));
    assert_eq!(vec![3usize, 4, 5, 0, 1], pending_slots(3, 2, 6));
}
