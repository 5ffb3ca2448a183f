use atom_box::domain::Domain;
use atom_box::domain::ReclaimStrategy;
use atom_box::AtomBox;
use atom_box::LoadGuard;
use std::sync::Arc;

// Two workers share each cell. They run on one thread and take turns, a step at a time, so
// that the steps of one fall between the steps of the other.

const ITERATIONS: usize = 2;

#[derive(Debug)]
struct Value(usize);

fn leaked_domain() -> &'static Domain<1> {
    Box::leak(Box::new(Domain::new(ReclaimStrategy::Eager)))
}

/// One attempt of a worker that increments: `Ok` with the value it started from when the
/// exchange went through, else the guard to go on with.
fn attempt<'a>(
    atom_box: &AtomBox<'a, Value, 1>,
    current_value: LoadGuard<'a, Value, 1>,
) -> Option<LoadGuard<'a, Value, 1>> {
    let new_value = Value((*current_value).0 + 1);
    match atom_box.compare_exchange(current_value, new_value) {
        Ok(value) => {
            value.retire();
            None
        }
        Err(value) => Some(value),
    }
}

fn attempt_weak<'a>(
    atom_box: &AtomBox<'a, Value, 1>,
    current_value: LoadGuard<'a, Value, 1>,
) -> Option<LoadGuard<'a, Value, 1>> {
    let new_value = Value((*current_value).0 + 1);
    match atom_box.compare_exchange_weak(current_value, new_value) {
        Ok(value) => {
            value.retire();
            None
        }
        Err(value) => Some(value),
    }
}

fn two_workers_increment(atom_box: &AtomBox<'static, Value, 1>, weak: bool) {
    let step = if weak { attempt_weak } else { attempt };
    let mut current_value1 = Some(atom_box.load());
    let initial_value1 = (**current_value1.as_ref().unwrap()).0;
    let mut current_value2 = Some(atom_box.load());
    let initial_value2 = (**current_value2.as_ref().unwrap()).0;
    let mut attempts = 0;
    while current_value1.is_some() || current_value2.is_some() {
        if let Some(current_value) = current_value1.take() {
            current_value1 = step(atom_box, current_value);
        }
        if let Some(current_value) = current_value2.take() {
            current_value2 = step(atom_box, current_value);
        }
        attempts += 1;
        assert!(attempts <= 2, "the worker that lost goes through on its second attempt");
    }
    let new_value = atom_box.load();
    assert!(
        (*new_value).0 > initial_value1,
        "Value should have been increased"
    );
    assert!(
        (*new_value).0 > initial_value2,
        "Value should have been increased"
    );
    assert_eq!(new_value.0, 2, "Final value should be 2");
    new_value.release();
}

fn reader_and_writer_take_turns(
    atom_box1: &AtomBox<'static, Value, 1>,
    atom_box2: &AtomBox<'static, Value, 1>,
) {
    let mut current_value = 0;
    for i in 1..=ITERATIONS {
        let new_value = atom_box1.load();
        assert!(new_value.0 >= current_value, "Value should not decrease");
        current_value = (*new_value).0;

        let guard1 = atom_box1.swap(Value(i));
        let value1 = (*guard1).0;
        let guard2 = atom_box2.swap_from_guard(guard1);
        assert!(
            (*guard2).0 <= value1,
            "Value in first box should be greater than or equal to value in second box"
        );
        guard2.retire();
        assert_eq!(new_value.0, current_value);
        new_value.release();
    }
    let new_value = atom_box1.load();
    assert!(new_value.0 >= current_value, "Value should not decrease");
    assert_eq!(new_value.0, ITERATIONS);
    new_value.release();
}

#[test]
fn concurrency_swap_with_static_ref() {
    let test_domain = leaked_domain();

    let atom_box1: &'static _ =
        Box::leak(Box::new(AtomBox::new_with_domain(Value(0), test_domain)));
    let atom_box2: &'static _ =
        Box::leak(Box::new(AtomBox::new_with_domain(Value(0), test_domain)));

    reader_and_writer_take_turns(atom_box1, atom_box2);
}

#[test]
fn concurrency_test_compare_exchange_with_static_ref() {
    let test_domain = leaked_domain();

    let atom_box: &'static _ =
        Box::leak(Box::new(AtomBox::new_with_domain(Value(0), test_domain)));

    two_workers_increment(atom_box, false);
}

#[test]
fn concurrency_test_compare_exchange_weak_with_static_ref() {
    let test_domain = leaked_domain();

    let atom_box: &'static _ =
        Box::leak(Box::new(AtomBox::new_with_domain(Value(0), test_domain)));

    two_workers_increment(atom_box, true);
}

#[test]
fn concurrency_swap_with_arc() {
    let test_domain = leaked_domain();

    let atom_box1 = Arc::new(AtomBox::new_with_domain(Value(0), test_domain));
    let atom_box2 = Arc::new(AtomBox::new_with_domain(Value(0), test_domain));

    let a_box1 = atom_box1.clone();
    reader_and_writer_take_turns(&a_box1, &atom_box2);
}

#[test]
fn concurrency_test_compare_exchange_with_arc() {
    let test_domain = leaked_domain();

    let atom_box = Arc::new(AtomBox::new_with_domain(Value(0), test_domain));

    let a_box1 = atom_box.clone();
    two_workers_increment(&a_box1, false);
}

#[test]
fn concurrency_test_compare_exchange_weak_with_arc() {
    let test_domain = leaked_domain();

    let atom_box = Arc::new(AtomBox::new_with_domain(Value(0), test_domain));

    let a_box1 = atom_box.clone();
    two_workers_increment(&a_box1, true);
}

#[test]
fn three_readers_read_the_same_value() {
    let domain = leaked_domain();
    let atom_box = AtomBox::new_with_domain(50, domain);
    let first = atom_box.load();
    let second = atom_box.load();
    let third = atom_box.load();
    assert_eq!(*first, 50);
    assert_eq!(*second, 50);
    assert_eq!(*third, 50);
    assert_eq!(first.protected_address(), Some(first.address()));
    assert_eq!(second.protected_address(), Some(first.address()));
    assert_eq!(third.protected_address(), Some(first.address()));
    third.release();
    second.release();
    first.release();
}

#[test]
fn a_reader_keeps_its_value_through_many_swaps() {
    let domain = leaked_domain();
    let atom_box = AtomBox::new_with_domain(Value(0), domain);
    let pinned = atom_box.load();
    for i in 1..=1000 {
        atom_box.store(Value(i));
        assert_eq!(pinned.0, 0);
    }
    let last = atom_box.load();
    assert_eq!(last.0, 1000);
    last.release();
    assert_eq!(domain.reclaim(), 0);
    pinned.release();
    assert_eq!(domain.reclaim(), 1);
}
