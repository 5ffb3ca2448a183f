//! When a domain releases what has been retired to it.
use crate::domain::clock::capped_nanos;
use crate::domain::clock::nanos_of;
use crate::domain::clock::unix_nanos;
use std::time::Duration;
use vstd::prelude::*;

verus! {

/// The time between two timed reclamations unless set otherwise: two seconds.
pub const DEFAULT_SYNC_THRESHOLD: u64 = 2000000000;

/// The number of retired values that triggers a reclamation unless set otherwise.
pub const DEFAULT_RETIRED_THRESHOLD: isize = 1000;

/// How many retired values per hazard slot trigger a reclamation unless set otherwise.
pub const DEFAULT_HAZARD_POINTER_MULTIPLIER: isize = 2;

/// The strategy a domain follows for releasing retired values.
#[derive(Debug)]
#[non_exhaustive]
pub enum ReclaimStrategy {
    /// Every retirement is followed by an attempt to release whatever no reader announces.
    Eager,
    /// Values are released periodically, and when enough of them have piled up.
    TimedCapped(TimedCappedSettings),
    /// Values are released only when the domain is asked to.
    Manual,
}

/// The settings of the `TimedCapped` strategy.
///
/// A reclamation is due when the retired values number at least `retired_threshold` and at
/// least `hazard_pointer_multiplier` times the hazard slots, or else when the clock has
/// reached the time noted for the next timed reclamation.
#[derive(Debug)]
pub struct TimedCappedSettings {
    last_sync_time: u64,
    sync_timeout: u64,
    hazard_pointer_multiplier: isize,
    retired_threshold: isize,
}

/// `now + timeout`, capped at `u64::MAX`.
pub open spec fn next_sync_time(now: u64, timeout: u64) -> u64 {
    if now + timeout > u64::MAX {
        u64::MAX
    } else {
        (now + timeout) as u64
    }
}

impl TimedCappedSettings {
    /// The time noted for the next timed reclamation, in nanoseconds since the Unix epoch.
    pub closed spec fn spec_last_sync_time(&self) -> u64 {
        self.last_sync_time
    }

    /// The time between two timed reclamations, in nanoseconds.
    pub closed spec fn spec_sync_timeout(&self) -> u64 {
        self.sync_timeout
    }

    /// How many retired values per hazard slot make a reclamation due.
    pub closed spec fn spec_hazard_pointer_multiplier(&self) -> isize {
        self.hazard_pointer_multiplier
    }

    /// How many retired values make a reclamation due.
    pub closed spec fn spec_retired_threshold(&self) -> isize {
        self.retired_threshold
    }

    /// The time noted for the next timed reclamation, in nanoseconds since the Unix epoch.
    #[verifier::when_used_as_spec(spec_last_sync_time)]
    pub fn last_sync_time(&self) -> (time: u64)
        ensures
            time == self.last_sync_time(),
    {
        self.last_sync_time
    }

    /// The time between two timed reclamations, in nanoseconds.
    #[verifier::when_used_as_spec(spec_sync_timeout)]
    pub fn sync_timeout(&self) -> (nanos: u64)
        ensures
            nanos == self.sync_timeout(),
    {
        self.sync_timeout
    }

    /// How many retired values per hazard slot make a reclamation due.
    #[verifier::when_used_as_spec(spec_hazard_pointer_multiplier)]
    pub fn hazard_pointer_multiplier(&self) -> (multiplier: isize)
        ensures
            multiplier == self.hazard_pointer_multiplier(),
    {
        self.hazard_pointer_multiplier
    }

    /// How many retired values make a reclamation due.
    #[verifier::when_used_as_spec(spec_retired_threshold)]
    pub fn retired_threshold(&self) -> (threshold: isize)
        ensures
            threshold == self.retired_threshold(),
    {
        self.retired_threshold
    }

    /// The same settings with `time` noted for the next timed reclamation.
    pub closed spec fn noting(self, time: u64) -> Self {
        TimedCappedSettings {
            last_sync_time: time,
            sync_timeout: self.sync_timeout,
            hazard_pointer_multiplier: self.hazard_pointer_multiplier,
            retired_threshold: self.retired_threshold,
        }
    }

    /// Noting a time changes the noted time and nothing else, and noting the time already
    /// noted changes nothing.
    pub broadcast proof fn lemma_noting(self, time: u64)
        ensures
            (#[trigger] self.noting(time)).last_sync_time() == time,
            self.noting(time).sync_timeout() == self.sync_timeout(),
            self.noting(time).hazard_pointer_multiplier() == self.hazard_pointer_multiplier(),
            self.noting(time).retired_threshold() == self.retired_threshold(),
            time == self.last_sync_time() ==> self.noting(time) == self,
            forall|later: u64| self.noting(time).noting(later) == self.noting(later),
    {
    }

    /// Whether enough has piled up: at least the threshold, and at least the multiplier
    /// times the number of hazard slots.
    pub open spec fn over_threshold(&self, hazard_pointer_count: usize, retired_count: usize) -> bool {
        &&& retired_count >= self.retired_threshold()
        &&& retired_count >= hazard_pointer_count * self.hazard_pointer_multiplier()
    }

    /// Whether a clock reading of `now` has reached the noted time.
    pub open spec fn sync_due(&self, now: Option<u64>) -> bool {
        now is Some && now->0 >= self.last_sync_time()
    }

    /// Settings with no timed reclamation noted yet and the default period.
    pub fn new(retired_threshold: isize, hazard_pointer_multiplier: isize) -> (settings: Self)
        ensures
            settings.last_sync_time() == 0,
            settings.sync_timeout() == DEFAULT_SYNC_THRESHOLD,
            settings.retired_threshold() == retired_threshold,
            settings.hazard_pointer_multiplier() == hazard_pointer_multiplier,
    {
        TimedCappedSettings {
            last_sync_time: 0,
            sync_timeout: DEFAULT_SYNC_THRESHOLD,
            retired_threshold,
            hazard_pointer_multiplier,
        }
    }

    /// Settings with no timed reclamation noted yet and a period of `sync_timeout`.
    pub fn new_with_timeout(
        sync_timeout: Duration,
        retired_threshold: isize,
        hazard_pointer_multiplier: isize,
    ) -> (settings: Self)
        ensures
            settings.last_sync_time() == 0,
            settings.sync_timeout() == capped_nanos(sync_timeout),
            settings.retired_threshold() == retired_threshold,
            settings.hazard_pointer_multiplier() == hazard_pointer_multiplier,
    {
        TimedCappedSettings {
            last_sync_time: 0,
            sync_timeout: nanos_of(&sync_timeout),
            retired_threshold,
            hazard_pointer_multiplier,
        }
    }

    /// The default settings.
    pub fn default() -> (settings: Self)
        ensures
            settings.last_sync_time() == 0,
            settings.sync_timeout() == DEFAULT_SYNC_THRESHOLD,
            settings.retired_threshold() == DEFAULT_RETIRED_THRESHOLD,
            settings.hazard_pointer_multiplier() == DEFAULT_HAZARD_POINTER_MULTIPLIER,
    {
        Self::new(DEFAULT_RETIRED_THRESHOLD, DEFAULT_HAZARD_POINTER_MULTIPLIER)
    }

    /// Decides on the counts alone: `true` exactly when enough has piled up.
    pub fn check_thresholds(&self, hazard_pointer_count: usize, retired_count: usize) -> (over: bool)
        ensures
            over == self.over_threshold(hazard_pointer_count, retired_count),
    {
        let retired: i128 = retired_count as i128;
        let hazards: i128 = hazard_pointer_count as i128;
        let multiplier: i128 = self.hazard_pointer_multiplier as i128;
        assert(-0x8000_0000_0000_0000 <= multiplier <= 0x7fff_ffff_ffff_ffff);
        assert(0 <= hazards <= 0xffff_ffff_ffff_ffff);
        assert(-0x8000_0000_0000_0000 * 0xffff_ffff_ffff_ffff <= hazards * multiplier
            <= 0x7fff_ffff_ffff_ffff * 0xffff_ffff_ffff_ffff) by (nonlinear_arith)
            requires
                -0x8000_0000_0000_0000 <= multiplier <= 0x7fff_ffff_ffff_ffff,
                0 <= hazards <= 0xffff_ffff_ffff_ffff,
        ;
        retired >= self.retired_threshold as i128 && retired >= hazards * multiplier
    }

    /// Decides on the clock alone, given a reading of it: a timed reclamation is due when
    /// `now` has reached the noted time, and the next one is then noted for `now` plus the
    /// period.
    pub fn check_sync_time_at(&mut self, now: Option<u64>) -> (due: bool)
        ensures
            due == old(self).sync_due(now),
            *final(self) == old(self).noting(
                if due {
                    next_sync_time(now->0, old(self).sync_timeout())
                } else {
                    old(self).last_sync_time()
                },
            ),
            final(self).last_sync_time() == if due {
                next_sync_time(now->0, old(self).sync_timeout())
            } else {
                old(self).last_sync_time()
            },
            final(self).sync_timeout() == old(self).sync_timeout(),
            final(self).retired_threshold() == old(self).retired_threshold(),
            final(self).hazard_pointer_multiplier() == old(self).hazard_pointer_multiplier(),
    {
        match now {
            Some(time) => {
                if time >= self.last_sync_time {
                    self.last_sync_time = time.saturating_add(self.sync_timeout);
                    true
                } else {
                    false
                }
            },
            None => false,
        }
    }

    /// Reads the clock and decides on it as `check_sync_time_at` does on the reading.
    pub fn check_sync_time(&mut self) -> (due: bool)
        ensures
            exists|now: Option<u64>|
                {
                    &&& due == #[trigger] old(self).sync_due(now)
                    &&& *final(self) == old(self).noting(
                        if due {
                            next_sync_time(now->0, old(self).sync_timeout())
                        } else {
                            old(self).last_sync_time()
                        },
                    )
                },
    {
        let now = unix_nanos();
        self.check_sync_time_at(now)
    }

    /// Decides whether to reclaim, given a reading of the clock: yes when enough has piled
    /// up, and otherwise when a timed reclamation is due. The clock is only consulted, and
    /// the next timed reclamation only noted, when the counts alone do not decide.
    pub fn should_reclaim_at(
        &mut self,
        hazard_pointer_count: usize,
        retired_count: usize,
        now: Option<u64>,
    ) -> (reclaim: bool)
        ensures
            reclaim == old(self).fires(hazard_pointer_count, retired_count, now),
            *final(self) == old(self).after(hazard_pointer_count, retired_count, now),
            final(self).last_sync_time() == old(self).noted_time_after(
                hazard_pointer_count,
                retired_count,
                now,
            ),
            final(self).sync_timeout() == old(self).sync_timeout(),
            final(self).retired_threshold() == old(self).retired_threshold(),
            final(self).hazard_pointer_multiplier() == old(self).hazard_pointer_multiplier(),
    {
        if self.check_thresholds(hazard_pointer_count, retired_count) {
            return true;
        }
        self.check_sync_time_at(now)
    }

    /// What `should_reclaim_at` answers on these counts and this reading of the clock.
    pub open spec fn fires(
        &self,
        hazard_pointer_count: usize,
        retired_count: usize,
        now: Option<u64>,
    ) -> bool {
        self.over_threshold(hazard_pointer_count, retired_count) || self.sync_due(now)
    }

    /// The time `should_reclaim_at` leaves noted on these counts and this reading of the
    /// clock.
    pub open spec fn noted_time_after(
        &self,
        hazard_pointer_count: usize,
        retired_count: usize,
        now: Option<u64>,
    ) -> u64 {
        if !self.over_threshold(hazard_pointer_count, retired_count) && self.sync_due(now) {
            next_sync_time(now->0, self.sync_timeout())
        } else {
            self.last_sync_time()
        }
    }

    /// The settings as `should_reclaim_at` leaves them on these counts and this reading of
    /// the clock.
    pub open spec fn after(
        self,
        hazard_pointer_count: usize,
        retired_count: usize,
        now: Option<u64>,
    ) -> Self {
        self.noting(self.noted_time_after(hazard_pointer_count, retired_count, now))
    }

    /// Decides whether to reclaim, reading the clock when the counts alone do not decide:
    /// the answer is that of `should_reclaim_at` on whatever the clock read.
    pub fn should_reclaim(&mut self, hazard_pointer_count: usize, retired_count: usize) -> (reclaim:
        bool)
        ensures
            exists|now: Option<u64>|
                {
                    &&& reclaim == #[trigger] old(self).fires(
                        hazard_pointer_count,
                        retired_count,
                        now,
                    )
                    &&& *final(self) == old(self).after(hazard_pointer_count, retired_count, now)
                },
    {
        if self.check_thresholds(hazard_pointer_count, retired_count) {
            assert(old(self).fires(hazard_pointer_count, retired_count, None));
            return true;
        }
        let due = self.check_sync_time();
        proof {
            let now = choose|now: Option<u64>|
                {
                    &&& due == #[trigger] old(self).sync_due(now)
                    &&& *final(self) == old(self).noting(
                        if due {
                            next_sync_time(now->0, old(self).sync_timeout())
                        } else {
                            old(self).last_sync_time()
                        },
                    )
                };
            assert(due == old(self).fires(hazard_pointer_count, retired_count, now));
        }
        due
    }

    /// Sets the time between two timed reclamations.
    pub fn with_timeout(self, sync_timeout: Duration) -> (settings: Self)
        ensures
            settings.sync_timeout() == capped_nanos(sync_timeout),
            settings.last_sync_time() == self.last_sync_time(),
            settings.retired_threshold() == self.retired_threshold(),
            settings.hazard_pointer_multiplier() == self.hazard_pointer_multiplier(),
    {
        TimedCappedSettings {
            last_sync_time: self.last_sync_time,
            sync_timeout: nanos_of(&sync_timeout),
            hazard_pointer_multiplier: self.hazard_pointer_multiplier,
            retired_threshold: self.retired_threshold,
        }
    }

    /// Sets how many retired values per hazard slot make a reclamation due.
    pub fn with_hazard_pointer_multiplier(self, hazard_pointer_multiplier: isize) -> (settings:
        Self)
        ensures
            settings.hazard_pointer_multiplier() == hazard_pointer_multiplier,
            settings.last_sync_time() == self.last_sync_time(),
            settings.sync_timeout() == self.sync_timeout(),
            settings.retired_threshold() == self.retired_threshold(),
    {
        TimedCappedSettings {
            last_sync_time: self.last_sync_time,
            sync_timeout: self.sync_timeout,
            hazard_pointer_multiplier,
            retired_threshold: self.retired_threshold,
        }
    }

    /// Sets how many retired values make a reclamation due.
    pub fn with_retired_threshold(self, retired_threshold: isize) -> (settings: Self)
        ensures
            settings.retired_threshold() == retired_threshold,
            settings.last_sync_time() == self.last_sync_time(),
            settings.sync_timeout() == self.sync_timeout(),
            settings.hazard_pointer_multiplier() == self.hazard_pointer_multiplier(),
    {
        TimedCappedSettings {
            last_sync_time: self.last_sync_time,
            sync_timeout: self.sync_timeout,
            hazard_pointer_multiplier: self.hazard_pointer_multiplier,
            retired_threshold,
        }
    }
}

impl ReclaimStrategy {
    /// Whether the strategy asks for a reclamation after a retirement that leaves
    /// `retired_count` values retired beside `hazard_pointer_count` hazard slots, when the
    /// clock reads `now`.
    pub open spec fn fires(
        &self,
        hazard_pointer_count: usize,
        retired_count: usize,
        now: Option<u64>,
    ) -> bool {
        match self {
            ReclaimStrategy::Eager => true,
            ReclaimStrategy::TimedCapped(settings) => settings.fires(
                hazard_pointer_count,
                retired_count,
                now,
            ),
            ReclaimStrategy::Manual => false,
        }
    }

    /// The strategy as a decision on these counts and this reading of the clock leaves it:
    /// only `TimedCapped` changes, and only in the time it has noted.
    pub open spec fn after(
        self,
        hazard_pointer_count: usize,
        retired_count: usize,
        now: Option<u64>,
    ) -> Self {
        match self {
            ReclaimStrategy::TimedCapped(settings) => ReclaimStrategy::TimedCapped(
                settings.after(hazard_pointer_count, retired_count, now),
            ),
            other => other,
        }
    }

    /// Whether `other` is the same strategy with the same settings, whatever time each has
    /// noted for its next timed reclamation.
    pub open spec fn same_settings(self, other: Self) -> bool {
        match (self, other) {
            (ReclaimStrategy::Eager, ReclaimStrategy::Eager) => true,
            (ReclaimStrategy::TimedCapped(mine), ReclaimStrategy::TimedCapped(theirs)) => {
                mine.noting(0) == theirs.noting(0)
            },
            (ReclaimStrategy::Manual, ReclaimStrategy::Manual) => true,
            _ => false,
        }
    }

    /// Asking a strategy leaves its settings as they were.
    pub proof fn lemma_after_same_settings(
        self,
        hazard_pointer_count: usize,
        retired_count: usize,
        now: Option<u64>,
    )
        ensures
            self.after(hazard_pointer_count, retired_count, now).same_settings(self),
            self.same_settings(self),
    {
        broadcast use TimedCappedSettings::lemma_noting;

    }

    /// The default strategy: `TimedCapped` with the default settings.
    pub fn default() -> (strategy: Self)
        ensures
            strategy matches ReclaimStrategy::TimedCapped(settings) && {
                &&& settings.last_sync_time() == 0
                &&& settings.sync_timeout() == DEFAULT_SYNC_THRESHOLD
                &&& settings.retired_threshold() == DEFAULT_RETIRED_THRESHOLD
                &&& settings.hazard_pointer_multiplier() == DEFAULT_HAZARD_POINTER_MULTIPLIER
            },
    {
        ReclaimStrategy::TimedCapped(TimedCappedSettings::default())
    }

    /// Decides whether to reclaim, given a reading of the clock.
    pub fn should_reclaim_at(
        &mut self,
        hazard_pointer_count: usize,
        retired_count: usize,
        now: Option<u64>,
    ) -> (reclaim: bool)
        ensures
            reclaim == old(self).fires(hazard_pointer_count, retired_count, now),
            *final(self) == old(self).after(hazard_pointer_count, retired_count, now),
    {
        match self {
            ReclaimStrategy::Eager => true,
            ReclaimStrategy::TimedCapped(settings) => settings.should_reclaim_at(
                hazard_pointer_count,
                retired_count,
                now,
            ),
            ReclaimStrategy::Manual => false,
        }
    }

    /// Decides whether to reclaim, reading the clock when the decision may depend on it:
    /// the answer is that of `should_reclaim_at` on whatever the clock read.
    pub fn should_reclaim(&mut self, hazard_pointer_count: usize, retired_count: usize) -> (reclaim:
        bool)
        ensures
            exists|now: Option<u64>|
                {
                    &&& reclaim == #[trigger] old(self).fires(
                        hazard_pointer_count,
                        retired_count,
                        now,
                    )
                    &&& *final(self) == old(self).after(hazard_pointer_count, retired_count, now)
                },
    {
        match self {
            ReclaimStrategy::Eager => {
                assert(old(self).fires(hazard_pointer_count, retired_count, None));
                true
            },
            ReclaimStrategy::TimedCapped(settings) => {
                let ghost before = *settings;
                let reclaim = settings.should_reclaim(hazard_pointer_count, retired_count);
                proof {
                    let now = choose|now: Option<u64>|
                        {
                            &&& reclaim == #[trigger] before.fires(
                                hazard_pointer_count,
                                retired_count,
                                now,
                            )
                            &&& *settings == before.after(hazard_pointer_count, retired_count, now)
                        };
                    assert(reclaim == old(self).fires(hazard_pointer_count, retired_count, now));
                }
                reclaim
            },
            ReclaimStrategy::Manual => {
                assert(!old(self).fires(hazard_pointer_count, retired_count, None));
                false
            },
        }
    }
}

} // verus!
