use atom_box::domain::reclaim_strategy::DEFAULT_HAZARD_POINTER_MULTIPLIER;
use atom_box::domain::reclaim_strategy::DEFAULT_RETIRED_THRESHOLD;
use atom_box::domain::reclaim_strategy::DEFAULT_SYNC_THRESHOLD;
use atom_box::domain::retire::split_guarded;
use atom_box::domain::DomainState;
use atom_box::domain::ReclaimStrategy;
use atom_box::domain::Retire;
use atom_box::domain::TimedCappedSettings;
use atom_box::domain::list::List;
use std::collections::HashSet;
use std::sync::Arc;
use std::time::Duration;

fn entry(address: usize) -> Retire {
    Retire::new(address, Arc::new(address))
}

fn addresses(entries: &Vec<Retire>) -> Vec<usize> {
    let mut found = Vec::new();
    for entry in entries.iter() {
        found.push(entry.address());
    }
    found
}

#[test]
fn default_settings() {
    let settings = TimedCappedSettings::default();
    assert_eq!(settings.retired_threshold(), 1000);
    assert_eq!(settings.hazard_pointer_multiplier(), 2);
    assert_eq!(settings.sync_timeout(), 2_000_000_000);
    assert_eq!(settings.last_sync_time(), 0);
    assert_eq!(DEFAULT_RETIRED_THRESHOLD, 1000);
    assert_eq!(DEFAULT_HAZARD_POINTER_MULTIPLIER, 2);
    assert_eq!(DEFAULT_SYNC_THRESHOLD, 2_000_000_000);
    match ReclaimStrategy::default() {
        ReclaimStrategy::TimedCapped(settings) => {
            assert_eq!(settings.retired_threshold(), 1000);
            assert_eq!(settings.hazard_pointer_multiplier(), 2);
            assert_eq!(settings.sync_timeout(), 2_000_000_000);
        }
        _ => panic!("the default strategy is timed and capped"),
    }
}

#[test]
fn builders_change_one_setting_each() {
    let settings = TimedCappedSettings::new(10, 3);
    assert_eq!(settings.retired_threshold(), 10);
    assert_eq!(settings.hazard_pointer_multiplier(), 3);
    assert_eq!(settings.sync_timeout(), 2_000_000_000);

    let settings = settings.with_retired_threshold(20);
    assert_eq!(settings.retired_threshold(), 20);
    assert_eq!(settings.hazard_pointer_multiplier(), 3);

    let settings = settings.with_hazard_pointer_multiplier(5);
    assert_eq!(settings.retired_threshold(), 20);
    assert_eq!(settings.hazard_pointer_multiplier(), 5);

    let settings = settings.with_timeout(Duration::from_nanos(5000000000));
    assert_eq!(settings.sync_timeout(), 5_000_000_000);
    assert_eq!(settings.retired_threshold(), 20);
    assert_eq!(settings.hazard_pointer_multiplier(), 5);
    assert_eq!(settings.last_sync_time(), 0);
}

#[test]
fn a_timeout_is_counted_in_nanoseconds_and_capped() {
    let settings = TimedCappedSettings::new_with_timeout(Duration::from_secs(3), 1000, 3);
    assert_eq!(settings.sync_timeout(), 3_000_000_000);
    assert_eq!(settings.retired_threshold(), 1000);
    assert_eq!(settings.hazard_pointer_multiplier(), 3);
    let settings = settings.with_timeout(Duration::from_micros(7));
    assert_eq!(settings.sync_timeout(), 7_000);
    let settings = settings.with_timeout(Duration::MAX);
    assert_eq!(settings.sync_timeout(), u64::MAX);
    let settings = settings.with_timeout(Duration::from_nanos(u64::MAX));
    assert_eq!(settings.sync_timeout(), u64::MAX);
    let settings = settings.with_timeout(Duration::from_nanos(0));
    assert_eq!(settings.sync_timeout(), 0);
}

#[test]
fn thresholds_need_both_the_count_and_the_multiple() {
    let settings = TimedCappedSettings::new(3, 2);
    assert!(settings.check_thresholds(1, 3));
    assert!(!settings.check_thresholds(2, 3));
    assert!(settings.check_thresholds(2, 4));
    assert!(!settings.check_thresholds(0, 2));
    assert!(settings.check_thresholds(0, 3));
    assert!(!settings.check_thresholds(1000, 1999));
    assert!(settings.check_thresholds(1000, 2000));
}

#[test]
fn thresholds_with_extreme_settings() {
    let settings = TimedCappedSettings::new(0, -1);
    assert!(settings.check_thresholds(usize::MAX, 0));
    let settings = TimedCappedSettings::new(isize::MIN, isize::MIN);
    assert!(settings.check_thresholds(usize::MAX, 0));
    let settings = TimedCappedSettings::new(0, isize::MAX);
    assert!(!settings.check_thresholds(usize::MAX, usize::MAX));
    assert!(settings.check_thresholds(0, 0));
    assert!(!settings.check_thresholds(3, usize::MAX));
    assert!(settings.check_thresholds(2, usize::MAX));
    let settings = TimedCappedSettings::new(isize::MAX, 0);
    assert!(!settings.check_thresholds(0, isize::MAX as usize - 1));
    assert!(settings.check_thresholds(0, isize::MAX as usize));
}

#[test]
fn a_timed_reclamation_is_due_once_the_noted_time_is_reached() {
    let mut settings = TimedCappedSettings::new_with_timeout(Duration::from_nanos(500), 1000, 2);
    assert!(!settings.check_sync_time_at(None));
    assert_eq!(settings.last_sync_time(), 0);

    assert!(settings.check_sync_time_at(Some(0)));
    assert_eq!(settings.last_sync_time(), 500);

    assert!(!settings.check_sync_time_at(Some(10)));
    assert!(!settings.check_sync_time_at(Some(499)));
    assert!(!settings.check_sync_time_at(None));
    assert_eq!(settings.last_sync_time(), 500);

    assert!(settings.check_sync_time_at(Some(500)));
    assert_eq!(settings.last_sync_time(), 1000);

    assert!(!settings.check_sync_time_at(Some(999)));
    assert_eq!(settings.last_sync_time(), 1000);

    assert!(settings.check_sync_time_at(Some(1001)));
    assert_eq!(settings.last_sync_time(), 1501);

    assert!(settings.check_sync_time_at(Some(u64::MAX)));
    assert_eq!(settings.last_sync_time(), u64::MAX);
    assert!(!settings.check_sync_time_at(Some(u64::MAX - 1)));
    assert!(settings.check_sync_time_at(Some(u64::MAX)));
    assert_eq!(settings.last_sync_time(), u64::MAX);
    assert_eq!(settings.sync_timeout(), 500);
}

#[test]
fn a_period_of_nothing_makes_every_reading_due() {
    let mut settings = TimedCappedSettings::new_with_timeout(Duration::from_nanos(0), 1000, 2);
    assert!(settings.check_sync_time_at(Some(7)));
    assert_eq!(settings.last_sync_time(), 7);
    assert!(settings.check_sync_time_at(Some(7)));
    assert!(!settings.check_sync_time_at(Some(6)));
    assert_eq!(settings.last_sync_time(), 7);
}

#[test]
fn the_clock_is_left_alone_when_the_counts_decide() {
    let mut settings = TimedCappedSettings::new_with_timeout(Duration::from_nanos(500), 3, 2);
    assert!(settings.should_reclaim_at(1, 3, Some(100)));
    assert_eq!(settings.last_sync_time(), 0);
    assert!(settings.should_reclaim_at(2, 3, Some(100)));
    assert_eq!(settings.last_sync_time(), 600);
    assert!(!settings.should_reclaim_at(2, 3, Some(599)));
    assert!(!settings.should_reclaim_at(2, 3, None));
    assert_eq!(settings.last_sync_time(), 600);
    assert!(settings.should_reclaim_at(1, 3, Some(600)));
    assert_eq!(settings.last_sync_time(), 600);
    assert!(settings.should_reclaim_at(2, 3, Some(600)));
    assert_eq!(settings.last_sync_time(), 1100);
}

#[test]
fn the_clock_reads_past_the_epoch() {
    let mut settings = TimedCappedSettings::new(1000, 2);
    assert!(settings.check_sync_time());
    let noted = settings.last_sync_time();
    assert!(noted > 2_000_000_000);
    assert!(!settings.check_sync_time());
    assert_eq!(settings.last_sync_time(), noted);

    let mut settings = TimedCappedSettings::new(1000, 2);
    assert!(settings.should_reclaim(1, 0));
    assert!(settings.last_sync_time() >= noted);
    assert!(!settings.should_reclaim(1, 0));
    assert!(settings.should_reclaim(1, 1000));
}

#[test]
fn each_strategy_decides_in_its_own_way() {
    let mut eager = ReclaimStrategy::Eager;
    assert!(eager.should_reclaim_at(5, 0, None));
    assert!(eager.should_reclaim(5, 0));

    let mut manual = ReclaimStrategy::Manual;
    assert!(!manual.should_reclaim_at(0, 5000, Some(u64::MAX)));
    assert!(!manual.should_reclaim(0, 5000));

    let mut timed = ReclaimStrategy::TimedCapped(TimedCappedSettings::new(3, 2));
    assert!(timed.should_reclaim_at(1, 3, None));
    assert!(!timed.should_reclaim_at(2, 3, None));
    assert!(timed.should_reclaim_at(2, 3, Some(1)));
    assert!(!timed.should_reclaim_at(2, 3, Some(2_000_000_000)));
    assert!(!timed.should_reclaim_at(2, 3, Some(1)));
    match timed {
        ReclaimStrategy::TimedCapped(settings) => {
            assert_eq!(settings.last_sync_time(), 2_000_000_001)
        }
        _ => panic!("the strategy keeps its kind"),
    }
}

#[test]
fn split_guarded_walks_from_the_head() {
    let mut chain = List::new();
    for address in [1, 2, 3, 4, 5] {
        chain.push(entry(address));
    }
    let mut guarded = HashSet::new();
    guarded.insert(1);
    guarded.insert(3);
    guarded.insert(9);

    let (kept, released) = split_guarded(&guarded, chain);

    assert_eq!(addresses(&released), [5, 4, 2]);
    let mut kept_in_push_order = Vec::new();
    for index in 0..kept.count() {
        kept_in_push_order.push(kept.get(index).address());
    }
    assert_eq!(kept_in_push_order, [3, 1]);
}

#[test]
fn split_guarded_of_nothing() {
    let chain = List::new();
    let guarded = HashSet::new();
    let (kept, released) = split_guarded(&guarded, chain);
    assert_eq!(kept.count(), 0);
    assert_eq!(released.len(), 0);
}

#[test]
fn a_new_domain_is_empty() {
    let state = DomainState::new(ReclaimStrategy::Manual);
    assert_eq!(state.hazard_pointer_count(), 0);
    assert_eq!(state.retired_count(), 0);
    assert!(state.hazard_ptr(0).is_none());
    assert_eq!(state.get_guarded_ptrs(), HashSet::new());
}

#[test]
fn slots_are_reused_after_release() {
    let mut state = DomainState::new(ReclaimStrategy::Manual);
    assert_eq!(state.acquire_haz_ptr(), 0);
    assert_eq!(state.acquire_haz_ptr(), 1);
    assert_eq!(state.acquire_haz_ptr(), 2);
    state.release_hazard_ptr(0);
    state.release_hazard_ptr(1);
    assert_eq!(state.acquire_haz_ptr(), 1);
    assert_eq!(state.acquire_haz_ptr(), 0);
    assert_eq!(state.acquire_haz_ptr(), 3);
    assert_eq!(state.hazard_pointer_count(), 4);
    assert_eq!(state.acquire_new_haz_ptr(), 4);
    assert_eq!(state.hazard_pointer_count(), 5);
}

#[test]
fn guarded_ptrs_are_the_announced_addresses() {
    let mut state = DomainState::new(ReclaimStrategy::Manual);
    let a = state.acquire_haz_ptr();
    let b = state.acquire_haz_ptr();
    let c = state.acquire_haz_ptr();
    state.protect(a, 100);
    state.protect(b, 200);
    state.protect(c, 100);
    let mut expected = HashSet::new();
    expected.insert(100);
    expected.insert(200);
    assert_eq!(state.get_guarded_ptrs(), expected);

    state.reset(b);
    expected.remove(&200);
    assert_eq!(state.get_guarded_ptrs(), expected);
    assert!(state.hazard_ptr(b).unwrap().is_active());

    state.release_hazard_ptr(a);
    assert_eq!(state.get_guarded_ptrs(), expected);
    state.release_hazard_ptr(c);
    assert_eq!(state.get_guarded_ptrs(), HashSet::new());
    assert!(!state.hazard_ptr(c).unwrap().is_active());
}

#[test]
fn manual_retire_only_queues() {
    let mut state = DomainState::new(ReclaimStrategy::Manual);
    assert_eq!(state.retire(entry(1)).len(), 0);
    assert_eq!(state.retire(entry(2)).len(), 0);
    assert_eq!(state.retire(entry(3)).len(), 0);
    assert_eq!(state.retired_count(), 3);
    assert_eq!(state.retired_addresses(), [3, 2, 1]);
    assert_eq!(addresses(&state.reclaim()), [3, 2, 1]);
    assert_eq!(state.retired_count(), 0);
    assert_eq!(state.reclaim().len(), 0);
}

#[test]
fn eager_retire_releases_what_is_not_announced() {
    let mut state = DomainState::new(ReclaimStrategy::Eager);
    let slot = state.acquire_haz_ptr();
    state.protect(slot, 20);

    assert_eq!(addresses(&state.retire(entry(20))), []);
    assert_eq!(state.retired_addresses(), [20]);

    assert_eq!(addresses(&state.retire(entry(30))), [30]);
    assert_eq!(state.retired_addresses(), [20]);

    state.release_hazard_ptr(slot);
    assert_eq!(state.retired_addresses(), [20]);
    assert_eq!(addresses(&state.retire(entry(40))), [40, 20]);
    assert_eq!(state.retired_count(), 0);
}

#[test]
fn a_reclamation_keeps_the_announced_in_reverse_order() {
    let mut state = DomainState::new(ReclaimStrategy::Manual);
    let a = state.acquire_haz_ptr();
    let b = state.acquire_haz_ptr();
    state.protect(a, 1);
    state.protect(b, 3);
    for address in [1, 2, 3, 4] {
        state.retire(entry(address));
    }
    assert_eq!(state.retired_addresses(), [4, 3, 2, 1]);

    assert_eq!(addresses(&state.bulk_reclaim()), [4, 2]);
    assert_eq!(state.retired_addresses(), [1, 3]);

    assert_eq!(addresses(&state.bulk_reclaim()), []);
    assert_eq!(state.retired_addresses(), [3, 1]);

    state.reset(a);
    assert_eq!(addresses(&state.bulk_reclaim()), [1]);
    assert_eq!(state.retired_addresses(), [3]);
}

#[test]
fn reclaim_unguarded_puts_survivors_in_front_of_the_list() {
    let mut state = DomainState::new(ReclaimStrategy::Manual);
    state.retire(entry(10));
    let mut chain = List::new();
    chain.push(entry(1));
    chain.push(entry(2));
    chain.push(entry(3));
    let mut guarded = HashSet::new();
    guarded.insert(1);
    guarded.insert(2);
    let released = state.reclaim_unguarded(guarded, chain);
    assert_eq!(addresses(&released), [3]);
    assert_eq!(state.retired_addresses(), [1, 2, 10]);
}

#[test]
fn timed_capped_retire_fires_on_the_counts() {
    let settings = TimedCappedSettings::new_with_timeout(Duration::MAX, 3, 2);
    let mut state = DomainState::new(ReclaimStrategy::TimedCapped(settings));
    state.acquire_haz_ptr();
    // The first retirement finds that the clock has reached the noted time 0 and reclaims; the next
    // timed reclamation is then noted for the end of time.
    assert_eq!(addresses(&state.retire(entry(1))), [1]);
    assert_eq!(addresses(&state.retire(entry(2))), []);
    assert_eq!(addresses(&state.retire(entry(3))), []);
    assert_eq!(addresses(&state.retire(entry(4))), [4, 3, 2]);
    assert_eq!(state.retired_count(), 0);

    state.acquire_haz_ptr();
    for address in [5, 6, 7] {
        assert_eq!(addresses(&state.retire(entry(address))), []);
    }
    assert_eq!(addresses(&state.retire(entry(8))), [8, 7, 6, 5]);
}

#[test]
fn the_end_of_a_domain_releases_the_announced_too() {
    let mut state = DomainState::new(ReclaimStrategy::Manual);
    let slot = state.acquire_haz_ptr();
    state.protect(slot, 2);
    for address in [1, 2, 3] {
        state.retire(entry(address));
    }
    assert_eq!(addresses(&state.release_all()), [3, 2, 1]);

    let state = DomainState::new(ReclaimStrategy::Eager);
    assert_eq!(state.release_all().len(), 0);
}
