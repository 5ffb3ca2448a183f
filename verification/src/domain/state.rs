//! The state of a domain and the steps that change it, one thread at a time.
//!
//! Everything here has exclusive access to the state. `Domain` shares the state between
//! threads by taking exactly one of these steps at a time.
use crate::domain::hazard_pointer_list::all_wf;
use crate::domain::hazard_pointer_list::first_available;
use crate::domain::hazard_pointer_list::guarded_addresses;
use crate::domain::hazard_pointer_list::lemma_first_available;
use crate::domain::hazard_pointer_list::HazardPointerList;
use crate::domain::list::List;
use crate::domain::reclaim_strategy::ReclaimStrategy;
use crate::domain::retire::is_guarded;
use crate::domain::retire::is_unguarded;
use crate::domain::retire::split_guarded;
use crate::domain::retire::Retire;
use crate::hazard_ptr::HazPtr;
use std::collections::HashSet;
use vstd::prelude::*;

verus! {

broadcast use vstd::std_specs::hash::group_hash_axioms;

/// What a domain holds: its hazard slots and its retired entries, each in the order they
/// were pushed, and its reclamation strategy.
pub struct DomainView {
    pub hazard_ptrs: Seq<HazPtr>,
    pub retired: Seq<Retire>,
    pub reclaim_strategy: ReclaimStrategy,
}

impl DomainView {
    /// Every slot that is not held announces nothing.
    pub open spec fn wf(self) -> bool {
        all_wf(self.hazard_ptrs)
    }

    /// The addresses that some slot announces.
    pub open spec fn guarded(self) -> Set<usize> {
        guarded_addresses(self.hazard_ptrs)
    }

    /// The slot that `acquire` hands out: the first free one a scan from the head finds,
    /// or else a new one.
    pub open spec fn acquired_slot(self) -> int {
        match first_available(self.hazard_ptrs) {
            Some(found) => found,
            None => self.hazard_ptrs.len() as int,
        }
    }

    /// The domain after a reader has acquired a slot.
    pub open spec fn acquire(self) -> DomainView {
        DomainView {
            hazard_ptrs: match first_available(self.hazard_ptrs) {
                Some(found) => self.hazard_ptrs.update(
                    found,
                    HazPtr { ptr: self.hazard_ptrs[found].ptr, active: true },
                ),
                None => self.hazard_ptrs.push(HazPtr { ptr: None, active: true }),
            },
            ..self
        }
    }

    /// The domain after the holder of `slot` has announced `ptr`.
    pub open spec fn protect(self, slot: int, ptr: usize) -> DomainView {
        DomainView {
            hazard_ptrs: self.hazard_ptrs.update(slot, HazPtr { ptr: Some(ptr), active: true }),
            ..self
        }
    }

    /// The domain after the holder of `slot` has withdrawn its announcement.
    pub open spec fn reset(self, slot: int) -> DomainView {
        DomainView {
            hazard_ptrs: self.hazard_ptrs.update(
                slot,
                HazPtr { ptr: None, active: self.hazard_ptrs[slot].active },
            ),
            ..self
        }
    }

    /// The domain after `slot` has been given back.
    pub open spec fn release(self, slot: int) -> DomainView {
        DomainView {
            hazard_ptrs: self.hazard_ptrs.update(slot, HazPtr { ptr: None, active: false }),
            ..self
        }
    }

    /// The retired entries that a reclamation keeps: those a slot announces, as a walk from
    /// the head of the retire list meets them.
    pub open spec fn kept(self) -> Seq<Retire> {
        self.retired.reverse().filter(is_guarded(self.guarded()))
    }

    /// The retired entries that a reclamation releases: those no slot announces, as a walk
    /// from the head of the retire list meets them.
    pub open spec fn released(self) -> Seq<Retire> {
        self.retired.reverse().filter(is_unguarded(self.guarded()))
    }

    /// The domain after a reclamation.
    pub open spec fn reclaim(self) -> DomainView {
        DomainView { retired: self.kept(), ..self }
    }

    /// The domain with `entry` pushed on its retire list.
    pub open spec fn push_retired(self, entry: Retire) -> DomainView {
        DomainView { retired: self.retired.push(entry), ..self }
    }

    /// Whether the strategy asks for a reclamation when the clock reads `now`.
    pub open spec fn fires(self, now: Option<u64>) -> bool {
        self.reclaim_strategy.fires(
            self.hazard_ptrs.len() as usize,
            self.retired.len() as usize,
            now,
        )
    }

    /// The domain after its strategy has been asked when the clock read `now`.
    pub open spec fn asked(self, now: Option<u64>) -> DomainView {
        DomainView {
            reclaim_strategy: self.reclaim_strategy.after(
                self.hazard_ptrs.len() as usize,
                self.retired.len() as usize,
                now,
            ),
            ..self
        }
    }

    /// The domain after `entry` has been retired to it when the clock read `now`: the entry
    /// is pushed, the strategy is asked, and a reclamation follows if the strategy says so.
    pub open spec fn retire(self, entry: Retire, now: Option<u64>) -> DomainView {
        let pushed = self.push_retired(entry);
        if pushed.fires(now) {
            pushed.asked(now).reclaim()
        } else {
            pushed.asked(now)
        }
    }

    /// The entries released when `entry` is retired while the clock reads `now`.
    pub open spec fn retire_released(self, entry: Retire, now: Option<u64>) -> Seq<Retire> {
        let pushed = self.push_retired(entry);
        if pushed.fires(now) {
            pushed.released()
        } else {
            Seq::empty()
        }
    }
}

/// The state of a domain: one list of hazard slots, one list of retired entries, and one
/// reclamation strategy.
pub struct DomainState {
    retired: List<Retire>,
    hazard_ptrs: HazardPointerList,
    reclaim_strategy: ReclaimStrategy,
}

impl View for DomainState {
    type V = DomainView;

    closed spec fn view(&self) -> DomainView {
        DomainView {
            hazard_ptrs: self.hazard_ptrs@,
            retired: self.retired@,
            reclaim_strategy: self.reclaim_strategy,
        }
    }
}

impl DomainState {
    /// A domain with no slots and nothing retired.
    pub fn new(reclaim_strategy: ReclaimStrategy) -> (state: Self)
        ensures
            state@.hazard_ptrs == Seq::<HazPtr>::empty(),
            state@.retired == Seq::<Retire>::empty(),
            state@.reclaim_strategy == reclaim_strategy,
            state@.wf(),
    {
        DomainState { retired: List::new(), hazard_ptrs: List::new(), reclaim_strategy }
    }

    /// The number of hazard slots.
    pub fn hazard_pointer_count(&self) -> (count: usize)
        ensures
            count == self@.hazard_ptrs.len(),
    {
        self.hazard_ptrs.count()
    }

    /// The number of retired entries.
    pub fn retired_count(&self) -> (count: usize)
        ensures
            count == self@.retired.len(),
    {
        self.retired.count()
    }

    /// The slot with this index.
    pub fn hazard_ptr(&self, slot: usize) -> (node: Option<HazPtr>)
        ensures
            slot < self@.hazard_ptrs.len() ==> node == Some(self@.hazard_ptrs[slot as int]),
            slot >= self@.hazard_ptrs.len() ==> node is None,
    {
        if slot < self.hazard_ptrs.count() {
            Some(*self.hazard_ptrs.get(slot))
        } else {
            None
        }
    }

    /// The addresses of the retired entries, as a walk from the head of the retire list
    /// meets them.
    pub fn retired_addresses(&self) -> (addresses: Vec<usize>)
        ensures
            addresses@.len() == self@.retired.len(),
            forall|i: int|
                0 <= i < addresses@.len() ==> #[trigger] addresses@[i]
                    == self@.retired.reverse()[i].address(),
    {
        let walk = self.retired.iter();
        let mut addresses: Vec<usize> = Vec::new();
        let mut next: usize = 0;
        while next < walk.len()
            invariant
                next <= walk@.len(),
                walk@.len() == self.retired@.len(),
                addresses@.len() == next,
                forall|i: int| 0 <= i < walk@.len() ==> *#[trigger] walk@[i] == self.retired.from_head()[i],
                forall|i: int|
                    0 <= i < next ==> #[trigger] addresses@[i]
                        == self.retired@.reverse()[i].address(),
            decreases walk@.len() - next,
        {
            addresses.push(walk[next].address());
            next = next + 1;
        }
        addresses
    }

    /// Hands out a slot that the caller then holds: a free one if a scan from the head
    /// finds one, else a new one.
    pub fn acquire_haz_ptr(&mut self) -> (slot: usize)
        ensures
            slot == old(self)@.acquired_slot(),
            final(self)@ == old(self)@.acquire(),
            slot < final(self)@.hazard_ptrs.len(),
            final(self)@.hazard_ptrs[slot as int].active,
            old(self)@.wf() ==> final(self)@.wf() && final(self)@.hazard_ptrs[slot as int].ptr
                is None,
    {
        proof {
            lemma_first_available(self@.hazard_ptrs);
        }
        let found = self.hazard_ptrs.get_available();
        match found {
            Some(slot) => slot,
            None => self.acquire_new_haz_ptr(),
        }
    }

    /// Pushes a new slot that the caller holds from the start.
    pub fn acquire_new_haz_ptr(&mut self) -> (slot: usize)
        ensures
            slot == old(self)@.hazard_ptrs.len(),
            final(self)@ == (DomainView {
                hazard_ptrs: old(self)@.hazard_ptrs.push(HazPtr { ptr: None, active: true }),
                ..old(self)@
            }),
    {
        self.hazard_ptrs.push_in_use(None)
    }

    /// Gives `slot` back: its announcement is withdrawn, then it is free for others.
    pub fn release_hazard_ptr(&mut self, slot: usize)
        requires
            slot < old(self)@.hazard_ptrs.len(),
        ensures
            final(self)@ == old(self)@.release(slot as int),
            old(self)@.wf() ==> final(self)@.wf(),
    {
        self.hazard_ptrs.set_node_available(slot);
    }

    /// Announces `ptr` in `slot`, which the caller holds.
    pub fn protect(&mut self, slot: usize, ptr: usize)
        requires
            slot < old(self)@.hazard_ptrs.len(),
            old(self)@.hazard_ptrs[slot as int].active,
        ensures
            final(self)@ == old(self)@.protect(slot as int, ptr),
            old(self)@.wf() ==> final(self)@.wf(),
    {
        let mut node: HazPtr = *self.hazard_ptrs.get(slot);
        node.protect(ptr);
        self.hazard_ptrs.set(slot, node);
    }

    /// Withdraws the announcement of `slot`.
    pub fn reset(&mut self, slot: usize)
        requires
            slot < old(self)@.hazard_ptrs.len(),
        ensures
            final(self)@ == old(self)@.reset(slot as int),
            old(self)@.wf() ==> final(self)@.wf(),
    {
        let mut node: HazPtr = *self.hazard_ptrs.get(slot);
        node.reset();
        self.hazard_ptrs.set(slot, node);
    }

    /// Collects the addresses that the slots announce.
    pub fn get_guarded_ptrs(&self) -> (guarded_ptrs: HashSet<usize>)
        ensures
            guarded_ptrs@ == self@.guarded(),
    {
        let mut guarded_ptrs: HashSet<usize> = HashSet::new();
        let count: usize = self.hazard_ptrs.count();
        let mut left: usize = count;
        while left > 0
            invariant
                count == self.hazard_ptrs@.len(),
                left <= count,
                forall|address: usize|
                    guarded_ptrs@.contains(address) <==> exists|i: int|
                        left <= i < count && #[trigger] self.hazard_ptrs@[i].ptr == Some(address),
            decreases left,
        {
            left = left - 1;
            match self.hazard_ptrs.get(left).load() {
                Some(guarded_ptr) => {
                    guarded_ptrs.insert(guarded_ptr);
                },
                None => {},
            }
        }
        assert(guarded_ptrs@ =~= self@.guarded());
        guarded_ptrs
    }

    /// Releases every retired entry that no slot announces and keeps the others.
    ///
    /// The retire list is drained, the announced addresses are collected, and the drained
    /// chain is walked from its head; what is still announced goes back on the list. The
    /// released entries are handed to the caller, which releases them by dropping them.
    pub fn bulk_reclaim(&mut self) -> (reclaimed: Vec<Retire>)
        ensures
            final(self)@ == old(self)@.reclaim(),
            reclaimed@ == old(self)@.released(),
    {
        let retired_list = self.retired.drain();
        if retired_list.count() == 0 {
            proof {
                reveal(Seq::filter);
                assert(old(self)@.retired.reverse() =~= Seq::<Retire>::empty());
            }
            return Vec::new();
        }
        let guarded_ptrs = self.get_guarded_ptrs();
        self.reclaim_unguarded(guarded_ptrs, retired_list)
    }

    /// Walks a drained chain, puts what is still announced back at the head of the retire
    /// list and hands out the rest.
    pub fn reclaim_unguarded(
        &mut self,
        guarded_ptrs: HashSet<usize>,
        retired_list: List<Retire>,
    ) -> (reclaimed: Vec<Retire>)
        ensures
            final(self)@ == (DomainView {
                retired: old(self)@.retired + retired_list.from_head().filter(
                    is_guarded(guarded_ptrs@),
                ),
                ..old(self)@
            }),
            reclaimed@ == retired_list.from_head().filter(is_unguarded(guarded_ptrs@)),
    {
        let (still_retired, reclaimed) = split_guarded(&guarded_ptrs, retired_list);
        if still_retired.count() > 0 {
            self.retired.push_all(still_retired);
        } else {
            assert(old(self)@.retired + still_retired@ =~= old(self)@.retired);
        }
        reclaimed
    }

    /// Asks the strategy whether to reclaim now.
    pub fn should_reclaim(&mut self) -> (reclaim: bool)
        ensures
            exists|now: Option<u64>|
                {
                    &&& reclaim == #[trigger] old(self)@.fires(now)
                    &&& final(self)@ == old(self)@.asked(now)
                },
    {
        let hazard_pointer_count = self.hazard_ptrs.count();
        let retired_count = self.retired.count();
        let reclaim = self.reclaim_strategy.should_reclaim(hazard_pointer_count, retired_count);
        proof {
            let now = choose|now: Option<u64>|
                {
                    &&& reclaim == #[trigger] old(self).reclaim_strategy.fires(
                        hazard_pointer_count,
                        retired_count,
                        now,
                    )
                    &&& self.reclaim_strategy == old(self).reclaim_strategy.after(
                        hazard_pointer_count,
                        retired_count,
                        now,
                    )
                };
            assert(reclaim == old(self)@.fires(now));
        }
        reclaim
    }

    /// Puts `entry` on the retire list, asks the strategy, and reclaims if it says so. What
    /// the reclamation released is handed to the caller.
    pub fn retire(&mut self, entry: Retire) -> (reclaimed: Vec<Retire>)
        ensures
            exists|now: Option<u64>|
                {
                    &&& final(self)@ == #[trigger] old(self)@.retire(entry, now)
                    &&& reclaimed@ == old(self)@.retire_released(entry, now)
                },
    {
        self.retired.push(entry);
        let ghost pushed = self@;
        let reclaim = self.should_reclaim();
        let ghost asked = self@;
        let reclaimed = if reclaim {
            self.bulk_reclaim()
        } else {
            Vec::new()
        };
        proof {
            let now = choose|now: Option<u64>|
                {
                    &&& reclaim == #[trigger] pushed.fires(now)
                    &&& asked == pushed.asked(now)
                };
            assert(pushed == old(self)@.push_retired(entry));
            assert(self@ == old(self)@.retire(entry, now));
        }
        reclaimed
    }

    /// Gives up the state and hands out every retired entry, announced or not, in the order
    /// a walk from the head of the retire list meets them. This is how a domain ends.
    pub fn release_all(self) -> (released: Vec<Retire>)
        ensures
            released@ == self@.retired.reverse(),
    {
        let mut state = self;
        let mut chain = state.retired.drain();
        let mut released: Vec<Retire> = Vec::new();
        let ghost all = chain@;
        proof {
            assert(all.subrange(all.len() as int, all.len() as int).reverse() =~= Seq::<
                Retire,
            >::empty());
        }
        while chain.count() > 0
            invariant
                chain@.len() <= all.len(),
                chain@ == all.subrange(0, chain@.len() as int),
                released@ == all.subrange(chain@.len() as int, all.len() as int).reverse(),
            decreases chain@.len(),
        {
            let ghost before = chain@.len() as int;
            match chain.pop_head() {
                Some(node) => {
                    proof {
                        assert(all.subrange(before - 1, all.len() as int).reverse()
                            =~= all.subrange(before, all.len() as int).reverse().push(node));
                        assert(chain@ =~= all.subrange(0, before - 1));
                    }
                    released.push(node);
                },
                None => {},
            }
        }
        proof {
            assert(all.subrange(0, all.len() as int) =~= all);
        }
        released
    }

    /// Reclaims now, whatever the strategy.
    pub fn reclaim(&mut self) -> (reclaimed: Vec<Retire>)
        ensures
            final(self)@ == old(self)@.reclaim(),
            reclaimed@ == old(self)@.released(),
    {
        self.bulk_reclaim()
    }
}

} // verus!
