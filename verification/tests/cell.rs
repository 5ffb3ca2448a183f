use atom_box::domain::Domain;
use atom_box::domain::ReclaimStrategy;
use atom_box::domain::TimedCappedSettings;
use atom_box::AtomBox;
use std::sync::atomic::AtomicUsize;
use std::sync::atomic::Ordering;
use std::sync::Arc;
use std::time::Duration;

struct Counted {
    drops: Arc<AtomicUsize>,
    value: usize,
}

impl Drop for Counted {
    fn drop(&mut self) {
        self.drops.fetch_add(1, Ordering::SeqCst);
    }
}

fn counted(drops: &Arc<AtomicUsize>, value: usize) -> Counted {
    Counted {
        drops: drops.clone(),
        value,
    }
}

/// Loads, copies the value out and gives the guard up.
fn read<T: Copy + Send + Sync + 'static, const ID: usize>(atom_box: &AtomBox<'_, T, ID>) -> T {
    let guard = atom_box.load();
    let value = *guard;
    guard.release();
    value
}

/// Loads, reads the number of the value and gives the guard up.
fn number<const ID: usize>(atom_box: &AtomBox<'_, Counted, ID>) -> usize {
    let guard = atom_box.load();
    let value = guard.value;
    guard.release();
    value
}

#[test]
fn load_after_store() {
    let domain: Domain<7> = Domain::new(ReclaimStrategy::Eager);
    let atom_box = AtomBox::new_with_domain("Hello", &domain);
    assert_eq!(read(&atom_box), "Hello");
    atom_box.store("World");
    assert_eq!(read(&atom_box), "World");
    atom_box.retire_installed();
    assert_eq!(domain.release_all(), 0);
}

#[test]
fn swap_hands_out_the_previous_value() {
    let domain: Domain<7> = Domain::new(ReclaimStrategy::Eager);
    let atom_box = AtomBox::new_with_domain("Hello World", &domain);
    let guard = atom_box.swap("Bye Bye");
    assert_eq!(*guard, "Hello World");
    assert_eq!(read(&atom_box), "Bye Bye");
    guard.retire();
}

#[test]
fn store_from_guard_moves_a_value_between_cells() {
    let domain: Domain<7> = Domain::new(ReclaimStrategy::Eager);
    let atom_box1 = AtomBox::new_with_domain("Hello", &domain);
    let atom_box2 = AtomBox::new_with_domain("World", &domain);

    let guard = atom_box1.swap("Bye Bye");
    let address = guard.address();
    atom_box2.store_from_guard(guard);
    let value = atom_box2.load();
    assert_eq!(*value, "Hello");
    assert_eq!(value.address(), address);
    value.release();
}

#[test]
fn swap_from_guard_hands_out_the_previous_value() {
    let domain: Domain<7> = Domain::new(ReclaimStrategy::Eager);
    let atom_box1 = AtomBox::new_with_domain("Hello", &domain);
    let atom_box2 = AtomBox::new_with_domain("World", &domain);

    let guard1 = atom_box1.swap("Bye Bye");
    let guard2 = atom_box2.swap_from_guard(guard1);
    assert_eq!(*guard2, "World");
    assert_eq!(read(&atom_box2), "Hello");
    guard2.retire();
}

#[test]
fn a_load_guard_holds_a_slot_that_announces_its_value() {
    let domain: Domain<7> = Domain::new(ReclaimStrategy::Manual);
    let atom_box = AtomBox::new_with_domain(1, &domain);
    let first = atom_box.load();
    let second = atom_box.load();
    assert_eq!(first.protected_address(), Some(first.address()));
    assert_eq!(second.protected_address(), Some(second.address()));
    assert_eq!(first.address(), second.address());
    assert!(std::ptr::eq(atom_box.domain(), &domain));
    assert!(std::ptr::eq(first.domain(), &domain));
    first.release();
    assert_eq!(second.protected_address(), Some(second.address()));
    second.release();
}

#[test]
fn a_released_slot_is_taken_again_and_announces_the_new_value() {
    let domain: Domain<7> = Domain::new(ReclaimStrategy::Manual);
    let atom_box = AtomBox::new_with_domain(1, &domain);
    let first = atom_box.load();
    let old_address = first.address();
    first.release();
    atom_box.store(2);
    assert_eq!(domain.reclaim(), 1, "nothing announces the replaced value any more");
    let second = atom_box.load();
    assert_eq!(*second, 2);
    assert_eq!(second.protected_address(), Some(second.address()));
    second.release();
    let _ = old_address;
}

#[test]
fn compare_exchange_succeeds_on_the_loaded_value() {
    let domain: Domain<7> = Domain::new(ReclaimStrategy::Eager);
    let atom_box = AtomBox::new_with_domain(0, &domain);
    let current_value = atom_box.load();
    let address = current_value.address();
    match atom_box.compare_exchange(current_value, 1) {
        Ok(guard) => {
            assert_eq!(*guard, 0);
            assert_eq!(guard.address(), address);
            guard.retire();
        }
        Err(_) => panic!("nobody else wrote to the cell"),
    }
    assert_eq!(read(&atom_box), 1);
}

#[test]
fn compare_exchange_gives_the_slot_of_the_expected_value_back() {
    let drops = Arc::new(AtomicUsize::new(0));
    let domain: Domain<7> = Domain::new(ReclaimStrategy::Manual);
    let atom_box = AtomBox::new_with_domain(counted(&drops, 0), &domain);
    let current_value = atom_box.load();
    match atom_box.compare_exchange(current_value, counted(&drops, 1)) {
        Ok(guard) => guard.retire(),
        Err(_) => panic!("nobody else wrote to the cell"),
    }
    assert_eq!(domain.reclaim(), 1, "nothing announces the replaced value any more");
    assert_eq!(drops.load(Ordering::SeqCst), 1);
}

#[test]
fn compare_exchange_fails_on_a_replaced_value() {
    let drops = Arc::new(AtomicUsize::new(0));
    let domain: Domain<7> = Domain::new(ReclaimStrategy::Manual);
    let atom_box = AtomBox::new_with_domain(counted(&drops, 0), &domain);
    let stale = atom_box.load();
    let stale_address = stale.address();
    atom_box.store(counted(&drops, 1));
    match atom_box.compare_exchange(stale, counted(&drops, 2)) {
        Ok(_) => panic!("the cell was written to in between"),
        Err(found) => {
            assert_eq!(found.value, 1);
            assert_ne!(found.address(), stale_address);
            assert_eq!(found.protected_address(), None);
            assert_eq!(
                drops.load(Ordering::SeqCst),
                1,
                "the value that was offered is released on the spot"
            );
            found.release();
        }
    }
    assert_eq!(number(&atom_box), 1);
    assert_eq!(domain.reclaim(), 1);
    assert_eq!(drops.load(Ordering::SeqCst), 2);
}

#[test]
fn compare_exchange_weak_increments() {
    let domain: Domain<7> = Domain::new(ReclaimStrategy::Eager);
    let atom_box = AtomBox::new_with_domain(0, &domain);
    let mut current_value = atom_box.load();
    let initial_value = *current_value;
    let replaced = loop {
        let new_value = *current_value + 1;
        match atom_box.compare_exchange_weak(current_value, new_value) {
            Ok(value) => {
                break value;
            }
            Err(value) => {
                current_value = value;
            }
        }
    };
    replaced.retire();
    let new_value = atom_box.load();
    assert!(*new_value > initial_value, "Value should have been increased");
    assert_eq!(*new_value, 1);
    new_value.release();
}

#[test]
fn compare_exchange_from_guard_installs_the_guarded_value() {
    let domain: Domain<7> = Domain::new(ReclaimStrategy::Eager);
    let atom_box1 = AtomBox::new_with_domain(0, &domain);
    let atom_box2 = AtomBox::new_with_domain(1, &domain);

    let mut guard = atom_box2.swap(2);
    let mut current_value = atom_box1.load();
    let replaced = loop {
        match atom_box1.compare_exchange_from_guard(current_value, guard) {
            Ok(value) => {
                break value;
            }
            Err((value, returned_guard)) => {
                current_value = value;
                guard = returned_guard;
            }
        }
    };
    assert_eq!(*replaced, 0);
    replaced.retire();
    let new_value = atom_box1.load();
    assert!(*new_value == 1, "value should have been increased");
    new_value.release();
}

#[test]
fn compare_exchange_from_guard_hands_the_guard_back_on_failure() {
    let drops = Arc::new(AtomicUsize::new(0));
    let domain: Domain<7> = Domain::new(ReclaimStrategy::Eager);
    let atom_box1 = AtomBox::new_with_domain(counted(&drops, 0), &domain);
    let atom_box2 = AtomBox::new_with_domain(counted(&drops, 1), &domain);

    let guard = atom_box2.swap(counted(&drops, 2));
    let guard_address = guard.address();
    let stale = atom_box1.load();
    let stale_address = stale.address();
    atom_box1.store(counted(&drops, 3));
    match atom_box1.compare_exchange_weak_from_guard(stale, guard) {
        Ok(_) => panic!("the cell was written to in between"),
        Err((found, returned)) => {
            assert_eq!(found.value, 3);
            assert_ne!(found.address(), stale_address);
            assert_eq!(found.protected_address(), None);
            assert_eq!(returned.value, 1);
            assert_eq!(returned.address(), guard_address);
            assert_eq!(drops.load(Ordering::SeqCst), 0);
            found.release();
            returned.retire();
        }
    }
    // The guard that came back retired its value, and nothing announces value 0 any more.
    assert_eq!(drops.load(Ordering::SeqCst), 2);
    assert_eq!(number(&atom_box1), 3);
    assert_eq!(number(&atom_box2), 2);
}

#[test]
fn manual_domain_releases_only_on_request() {
    let drops = Arc::new(AtomicUsize::new(0));
    let domain: Domain<42> = Domain::new(ReclaimStrategy::Manual);
    let atom_box = AtomBox::new_with_domain(counted(&drops, 0), &domain);
    let pinned = atom_box.load();
    atom_box.store(counted(&drops, 1));
    atom_box.store(counted(&drops, 2));
    atom_box.store(counted(&drops, 3));
    assert_eq!(drops.load(Ordering::SeqCst), 0);

    assert_eq!(domain.reclaim(), 2);
    assert_eq!(drops.load(Ordering::SeqCst), 2);
    assert_eq!(pinned.value, 0);
    assert_eq!(domain.reclaim(), 0);

    pinned.release();
    assert_eq!(drops.load(Ordering::SeqCst), 2);
    assert_eq!(domain.reclaim(), 1);
    assert_eq!(drops.load(Ordering::SeqCst), 3);
    assert_eq!(number(&atom_box), 3);
}

#[test]
fn every_value_is_released_exactly_once() {
    let drops = Arc::new(AtomicUsize::new(0));
    let domain: Domain<42> = Domain::new(ReclaimStrategy::Manual);
    let atom_box = AtomBox::new_with_domain(counted(&drops, 0), &domain);
    for value in 1..=10 {
        atom_box.store(counted(&drops, value));
    }
    let held = atom_box.load();
    atom_box.store(counted(&drops, 11));
    assert_eq!(held.value, 10);
    assert_eq!(drops.load(Ordering::SeqCst), 0);
    held.release();
    atom_box.retire_installed();
    assert_eq!(drops.load(Ordering::SeqCst), 0);
    assert_eq!(domain.release_all(), 12);
    assert_eq!(drops.load(Ordering::SeqCst), 12);
}

#[test]
fn the_end_of_a_domain_releases_what_is_still_announced() {
    let drops = Arc::new(AtomicUsize::new(0));
    let domain: Domain<42> = Domain::new(ReclaimStrategy::Eager);
    let atom_box = AtomBox::new_with_domain(counted(&drops, 0), &domain);
    let held = atom_box.load();
    atom_box.store(counted(&drops, 1));
    assert_eq!(held.value, 0);
    // The guard is given up without a release: its slot goes on announcing the value.
    drop(held);
    atom_box.store(counted(&drops, 2));
    assert_eq!(drops.load(Ordering::SeqCst), 1);
    atom_box.retire_installed();
    assert_eq!(drops.load(Ordering::SeqCst), 2);
    assert_eq!(domain.release_all(), 1);
    assert_eq!(drops.load(Ordering::SeqCst), 3);
}

#[test]
fn eager_domain_releases_after_the_last_guard_is_gone() {
    let drops = Arc::new(AtomicUsize::new(0));
    let domain: Domain<42> = Domain::new(ReclaimStrategy::Eager);
    let atom_box = AtomBox::new_with_domain(counted(&drops, 0), &domain);
    let first = atom_box.load();
    let second = atom_box.load();
    atom_box.store(counted(&drops, 1));
    assert_eq!(drops.load(Ordering::SeqCst), 0);
    first.release();
    atom_box.store(counted(&drops, 2));
    assert_eq!(drops.load(Ordering::SeqCst), 1, "value 1 is released, value 0 is announced");
    assert_eq!(second.value, 0);
    second.release();
    assert_eq!(drops.load(Ordering::SeqCst), 1);
    atom_box.store(counted(&drops, 3));
    assert_eq!(drops.load(Ordering::SeqCst), 3);
}

#[test]
fn timed_capped_domain_releases_when_enough_has_piled_up() {
    let drops = Arc::new(AtomicUsize::new(0));
    let settings = TimedCappedSettings::new_with_timeout(Duration::MAX, 3, 2);
    let domain: Domain<42> = Domain::new(ReclaimStrategy::TimedCapped(settings));
    let atom_box = AtomBox::new_with_domain(counted(&drops, 0), &domain);
    // The first retirement finds that the clock has reached the noted time.
    atom_box.store(counted(&drops, 1));
    assert_eq!(drops.load(Ordering::SeqCst), 1);
    atom_box.store(counted(&drops, 2));
    atom_box.store(counted(&drops, 3));
    assert_eq!(drops.load(Ordering::SeqCst), 1);
    atom_box.store(counted(&drops, 4));
    assert_eq!(drops.load(Ordering::SeqCst), 4);
}

#[test]
fn loads_between_swaps_never_go_back() {
    let domain: Domain<42> = Domain::new(ReclaimStrategy::Eager);
    let atom_box = AtomBox::new_with_domain(0, &domain);
    let mut current_value = 0;
    for i in 1..=100 {
        let before = atom_box.load();
        assert!(*before >= current_value, "Value should not decrease");
        current_value = *before;
        before.release();
        atom_box.swap(i).retire();
        let after = atom_box.load();
        assert!(*after >= current_value, "Value should not decrease");
        assert_eq!(*after, i);
        current_value = *after;
        after.release();
    }
    assert_eq!(domain.reclaim(), 0);
}

#[test]
fn the_default_domain_serves_cells() {
    let domain = Domain::default();
    let atom_box1 = AtomBox::new_with_domain(50, &domain);
    let atom_box2 = AtomBox::new_with_domain(60, &domain);
    let guard = atom_box1.swap(70);
    let guard = atom_box2.swap_from_guard(guard);
    assert_eq!(*guard, 60);
    guard.retire();
    assert_eq!(read(&atom_box1), 70);
    assert_eq!(read(&atom_box2), 50);
}

fn shareable<T: Send + Sync>() {}

#[test]
fn cells_domains_and_guards_can_be_shared_between_threads() {
    shareable::<Domain<1>>();
    shareable::<AtomBox<'static, usize, 1>>();
    shareable::<atom_box::StoreGuard<'static, usize, 1>>();
    shareable::<atom_box::LoadGuard<'static, usize, 1>>();
}
