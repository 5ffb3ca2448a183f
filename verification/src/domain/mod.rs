//! The hazard-pointer domain: the slots readers announce in, the values waiting to be
//! released, and the rule that says when to release them.
use crate::domain::reclaim_strategy::DEFAULT_HAZARD_POINTER_MULTIPLIER;
use crate::domain::reclaim_strategy::DEFAULT_RETIRED_THRESHOLD;
use crate::domain::reclaim_strategy::DEFAULT_SYNC_THRESHOLD;
pub use crate::domain::reclaim_strategy::ReclaimStrategy;
pub use crate::domain::reclaim_strategy::TimedCappedSettings;
pub use crate::domain::retire::Retire;
pub use crate::domain::state::DomainState;
pub use crate::domain::state::DomainView;
use std::sync::Arc;
use vstd::prelude::*;
use vstd::rwlock::RwLock;
use vstd::rwlock::RwLockPredicate;

pub mod clock;
pub mod hazard_pointer_list;
pub mod list;
pub mod reclaim_strategy;
pub mod retire;
pub mod schedule;
pub mod state;

verus! {

/// What holds of the state of a domain whenever nobody is changing it: the slots are well
/// formed and the strategy is the one the domain was made with.
pub struct DomainInv {
    pub reclaim_strategy: ReclaimStrategy,
}

impl RwLockPredicate<DomainState> for DomainInv {
    open spec fn inv(self, state: DomainState) -> bool {
        &&& state@.wf()
        &&& state@.reclaim_strategy.same_settings(self.reclaim_strategy)
    }
}

/// A holder of hazard slots and of retired values awaiting release.
///
/// Every cell is bound to one domain: its readers announce in the slots of that domain and
/// the values it replaces are retired to that domain. A domain is shared by reference; each
/// of its operations works on the state in one indivisible step.
///
/// A domain ends with `release_all`, which releases what is still retired. A domain that
/// is let go without it keeps its retired values for good.
pub struct Domain<const DOMAIN_ID: usize> {
    state: RwLock<DomainState, DomainInv>,
}

/// A hazard slot held by a reader, named by the domain it belongs to and its index there,
/// with a record of what the holder last announced in it.
pub(crate) struct HazardPointer<'domain, const DOMAIN_ID: usize> {
    domain: &'domain Domain<DOMAIN_ID>,
    slot: usize,
    announced: Option<usize>,
}

impl Domain<0> {
    /// The domain with the reserved identifier 0 and the default strategy.
    pub fn default() -> (domain: Self)
        ensures
            domain.reclaim_strategy() matches ReclaimStrategy::TimedCapped(settings) && {
                &&& settings.last_sync_time() == 0
                &&& settings.sync_timeout() == DEFAULT_SYNC_THRESHOLD
                &&& settings.retired_threshold() == DEFAULT_RETIRED_THRESHOLD
                &&& settings.hazard_pointer_multiplier() == DEFAULT_HAZARD_POINTER_MULTIPLIER
            },
    {
        Self::with_strategy(ReclaimStrategy::default())
    }
}

impl<const DOMAIN_ID: usize> Domain<DOMAIN_ID> {
    /// The strategy the domain was made with.
    pub closed spec fn reclaim_strategy(&self) -> ReclaimStrategy {
        self.state.pred().reclaim_strategy
    }

    /// A domain with no slots and nothing retired, following `reclaim_strategy`. The
    /// identifier 0 is reserved for the default domain.
    pub fn new(reclaim_strategy: ReclaimStrategy) -> (domain: Self)
        requires
            DOMAIN_ID != 0,
        ensures
            domain.reclaim_strategy() == reclaim_strategy,
    {
        Self::with_strategy(reclaim_strategy)
    }

    /// A domain with no slots and nothing retired, following `reclaim_strategy`.
    fn with_strategy(reclaim_strategy: ReclaimStrategy) -> (domain: Self)
        ensures
            domain.reclaim_strategy() == reclaim_strategy,
    {
        let state = DomainState::new(reclaim_strategy);
        proof {
            reclaim_strategy.lemma_after_same_settings(0, 0, None);
        }
        Domain { state: RwLock::new(state, Ghost(DomainInv { reclaim_strategy })) }
    }

    /// Hands out a hazard slot that the caller then holds, reusing one that was given back
    /// if there is one.
    pub(crate) fn acquire_haz_ptr(&self) -> (haz_ptr: HazardPointer<'_, DOMAIN_ID>)
        ensures
            haz_ptr.domain() == self,
            haz_ptr.announced() is None,
    {
        let (mut state, handle) = self.state.acquire_write();
        let slot = state.acquire_haz_ptr();
        handle.release_write(state);
        HazardPointer::new(self, slot)
    }

    /// Gives a hazard slot back: its announcement is withdrawn, then it is free for others.
    pub(crate) fn release_hazard_ptr(&self, haz_ptr: HazardPointer<'_, DOMAIN_ID>) {
        let (mut state, handle) = self.state.acquire_write();
        if haz_ptr.slot < state.hazard_pointer_count() {
            state.release_hazard_ptr(haz_ptr.slot);
        }
        handle.release_write(state);
    }

    /// Hands `value`, which readers know as `address`, to the domain. The value is released
    /// by a reclamation, once no slot announces `address`: by one that follows at once if
    /// the strategy says so, else by a later one.
    pub(crate) fn retire<T: Send + Sync + 'static>(&self, address: usize, value: Arc<T>) {
        let entry = Retire::new(address, value);
        let (mut state, handle) = self.state.acquire_write();
        let ghost before = state@;
        let reclaimed = state.retire(entry);
        proof {
            let now = choose|now: Option<u64>| state@ == #[trigger] before.retire(entry, now);
            lemma_retire_keeps_inv(before, entry, now, self.state.pred());
        }
        handle.release_write(state);
    }

    /// Releases every retired value that no slot announces, and says how many that were.
    ///
    /// The step is `DomainState::reclaim` on the state that the call finds, and the count
    /// is the number of entries which that step hands out. Nothing is promised of the
    /// count here: what the call finds is up to the other threads.
    pub fn reclaim(&self) -> (reclaimed: usize) {
        let (mut state, handle) = self.state.acquire_write();
        let reclaimed = state.reclaim();
        handle.release_write(state);
        reclaimed.len()
    }

    /// Ends the domain: every retired value is released, announced or not, and the call
    /// says how many that were.
    ///
    /// The step is `DomainState::release_all` on the state that the call finds. Nothing is
    /// promised of the count here: what the call finds is up to what was retired before.
    pub fn release_all(self) -> (released: usize) {
        let Domain { state } = self;
        let state = state.into_inner();
        let released = state.release_all();
        released.len()
    }

    /// The address announced in `slot` at the moment of the call.
    fn announced(&self, slot: usize) -> (ptr: Option<usize>) {
        let handle = self.state.acquire_read();
        let ptr = match handle.borrow().hazard_ptr(slot) {
            Some(node) => node.load(),
            None => None,
        };
        handle.release_read();
        ptr
    }

    /// Announces `ptr` in `slot`, if the slot exists and is held.
    fn protect(&self, slot: usize, ptr: usize) {
        let (mut state, handle) = self.state.acquire_write();
        match state.hazard_ptr(slot) {
            Some(node) => {
                if node.is_active() {
                    state.protect(slot, ptr);
                }
            },
            None => {},
        }
        handle.release_write(state);
    }

    /// Withdraws the announcement of `slot`, if the slot exists.
    fn reset(&self, slot: usize) {
        let (mut state, handle) = self.state.acquire_write();
        if slot < state.hazard_pointer_count() {
            state.reset(slot);
        }
        handle.release_write(state);
    }
}

/// Retiring keeps what a domain promises of its state.
proof fn lemma_retire_keeps_inv(before: DomainView, entry: Retire, now: Option<u64>, pred: DomainInv)
    requires
        before.wf(),
        before.reclaim_strategy.same_settings(pred.reclaim_strategy),
    ensures
        before.retire(entry, now).wf(),
        before.retire(entry, now).reclaim_strategy.same_settings(pred.reclaim_strategy),
{
    let pushed = before.push_retired(entry);
    pushed.reclaim_strategy.lemma_after_same_settings(
        pushed.hazard_ptrs.len() as usize,
        pushed.retired.len() as usize,
        now,
    );
    broadcast use crate::domain::reclaim_strategy::TimedCappedSettings::lemma_noting;

}

impl<'domain, const DOMAIN_ID: usize> HazardPointer<'domain, DOMAIN_ID> {
    /// The domain the slot belongs to.
    pub(crate) closed spec fn domain(&self) -> &Domain<DOMAIN_ID> {
        self.domain
    }

    /// The index of the slot in its domain.
    pub(crate) closed spec fn slot(&self) -> usize {
        self.slot
    }

    /// What the holder last announced and has not withdrawn since.
    pub(crate) closed spec fn announced(&self) -> Option<usize> {
        self.announced
    }

    fn new(domain: &'domain Domain<DOMAIN_ID>, slot: usize) -> (haz_ptr: Self)
        ensures
            haz_ptr.domain() == domain,
            haz_ptr.slot() == slot,
            haz_ptr.announced() is None,
    {
        HazardPointer { domain, slot, announced: None }
    }

    /// The address the slot announces at the moment of the call.
    pub(crate) fn load(&self) -> (ptr: Option<usize>) {
        self.domain.announced(self.slot)
    }

    /// Withdraws the announcement.
    pub(crate) fn reset(&mut self)
        ensures
            final(self).announced() is None,
            final(self).domain() == old(self).domain(),
            final(self).slot() == old(self).slot(),
    {
        self.domain.reset(self.slot);
        self.announced = None;
    }

    /// Announces `ptr`.
    pub(crate) fn protect(&mut self, ptr: usize)
        ensures
            final(self).announced() == Some(ptr),
            final(self).domain() == old(self).domain(),
            final(self).slot() == old(self).slot(),
    {
        self.domain.protect(self.slot, ptr);
        self.announced = Some(ptr);
    }
}

} // verus!
