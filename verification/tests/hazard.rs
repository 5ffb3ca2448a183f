use atom_box::domain::hazard_pointer_list::HazardPointerList;
use atom_box::domain::list::List;
use atom_box::hazard_ptr::HazPtr;

#[test]
fn a_slot_goes_through_its_life_cycle() {
    let mut slot = HazPtr::new(false);
    assert_eq!(slot.load(), None);
    assert!(!slot.is_active());

    assert!(slot.try_acquire());
    assert!(slot.is_active());
    assert_eq!(slot.load(), None);

    slot.protect(4096);
    assert_eq!(slot.load(), Some(4096));
    assert!(slot.is_active());

    slot.reset();
    assert_eq!(slot.load(), None);
    assert!(slot.is_active());

    slot.protect(8192);
    slot.release();
    assert_eq!(slot.load(), None);
    assert!(!slot.is_active());
}

#[test]
fn only_a_free_slot_can_be_acquired() {
    let mut slot = HazPtr::new(true);
    assert!(!slot.try_acquire());
    assert!(slot.is_active());
    slot.release();
    assert!(slot.try_acquire());
    assert!(!slot.try_acquire());
}

#[test]
fn store_replaces_the_announcement() {
    let mut slot = HazPtr::new(true);
    slot.store(Some(12));
    assert_eq!(slot.load(), Some(12));
    slot.store(None);
    assert_eq!(slot.load(), None);
    assert!(slot.is_active());
}

#[test]
fn an_empty_list_has_no_available_slot() {
    let mut slots: HazardPointerList = List::new();
    assert_eq!(slots.get_available(), None);
    assert_eq!(slots.count(), 0);
}

#[test]
fn push_in_use_adds_a_held_slot_at_the_head() {
    let mut slots: HazardPointerList = List::new();
    let first = slots.push_in_use(None);
    let second = slots.push_in_use(Some(77));
    assert_eq!(first, 0);
    assert_eq!(second, 1);
    assert_eq!(slots.count(), 2);
    assert!(slots.get(first).is_active());
    assert_eq!(slots.get(first).load(), None);
    assert!(slots.get(second).is_active());
    assert_eq!(slots.get(second).load(), Some(77));
    assert_eq!(slots.get_available(), None);
}

#[test]
fn get_available_takes_the_free_slot_nearest_to_the_head() {
    let mut slots: HazardPointerList = List::new();
    let a = slots.push_in_use(None);
    let b = slots.push_in_use(None);
    let c = slots.push_in_use(None);
    slots.set_node_available(a);
    slots.set_node_available(b);
    assert_eq!(slots.get_available(), Some(b));
    assert!(slots.get(b).is_active());
    assert!(!slots.get(a).is_active());
    assert_eq!(slots.get_available(), Some(a));
    assert_eq!(slots.get_available(), None);
    assert!(slots.get(c).is_active());
    assert_eq!(slots.count(), 3);
}

#[test]
fn set_node_available_withdraws_the_announcement() {
    let mut slots: HazardPointerList = List::new();
    let slot = slots.push_in_use(Some(5));
    slots.set_node_available(slot);
    assert_eq!(slots.get(slot).load(), None);
    assert!(!slots.get(slot).is_active());
}
