use logenough::log_data::Logdata;
use logenough::reference::Reference;

#[test]
fn test_wrap() {
    let ref_50 = Reference::<50>::new(48);

    ref_50.increment();
    assert_eq!(49, *ref_50.reference.lock().unwrap());
    ref_50.increment();
    assert_eq!(0, *ref_50.reference.lock().unwrap());
}

#[test]
fn reference_returns_the_stored_position() {
    let reference = Reference::<3>::new(0);
    assert_eq!(1, reference.increment());
    assert_eq!(2, reference.increment());
    assert_eq!(0, reference.increment());
    reference.notify();
}

#[test]
fn reference_wraps_past_the_largest_position() {
    let reference = Reference::<4>::new(usize::MAX);
    assert_eq!(0, reference.increment());
    let out_of_ring = Reference::<4>::new(9);
    assert_eq!(0, out_of_ring.increment());
}

#[test]
fn logdata_starts_zeroed_at_slot_zero() {
    let log = Logdata::<5>::new();
    assert_eq!(5, log.data.len());
    assert!(log.data.iter().all(|line| line.lock().unwrap().iter().all(|b| *b == 0)));
    assert_eq!(0, *log.reference.reference.lock().unwrap());
}

#[test]
fn logdata_clones_share_lines_and_position() {
    let log = Logdata::<5>::new();
    let clone = log.clone();
    clone.data[2].lock().unwrap()[0] = 7;
    assert_eq!(1, clone.reference.increment());
    assert_eq!(7, log.data[2].lock().unwrap()[0]);
    assert_eq!(1, *log.reference.reference.lock().unwrap());
}
