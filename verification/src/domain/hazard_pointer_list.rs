//! The hazard slots of a domain, as a head-push list of `HazPtr`.
//!
//! Slots are never unlinked, so the index a slot gets when it is pushed names it for good.
use crate::domain::list::List;
use crate::hazard_ptr::HazPtr;
use vstd::prelude::*;

verus! {

/// The hazard slots of a domain.
pub type HazardPointerList = List<HazPtr>;

/// The slot a scan from the head finds free first, if any slot is free.
pub open spec fn first_available(slots: Seq<HazPtr>) -> Option<int>
    decreases slots.len(),
{
    if slots.len() == 0 {
        None
    } else if !slots.last().active {
        Some(slots.len() - 1)
    } else {
        first_available(slots.drop_last())
    }
}

/// The addresses that some slot announces. The null announcement is no address, so a slot
/// that was given back announces nothing.
pub open spec fn guarded_addresses(slots: Seq<HazPtr>) -> Set<usize> {
    Set::new(|address: usize| exists|i: int| 0 <= i < slots.len() && #[trigger] slots[i].ptr == Some(address))
}

/// Every slot that is not held announces nothing.
pub open spec fn all_wf(slots: Seq<HazPtr>) -> bool {
    forall|i: int| 0 <= i < slots.len() ==> (#[trigger] slots[i]).wf()
}

/// What a scan finds is a free slot with only held slots between it and the head, and a
/// scan finds nothing only where every slot is held.
pub proof fn lemma_first_available(slots: Seq<HazPtr>)
    ensures
        match first_available(slots) {
            Some(found) => {
                &&& 0 <= found < slots.len()
                &&& !slots[found].active
                &&& forall|i: int| found < i < slots.len() ==> (#[trigger] slots[i]).active
            },
            None => forall|i: int| 0 <= i < slots.len() ==> (#[trigger] slots[i]).active,
        },
    decreases slots.len(),
{
    if slots.len() > 0 && slots.last().active {
        let rest = slots.drop_last();
        lemma_first_available(rest);
        assert(forall|i: int| 0 <= i < rest.len() ==> rest[i] == slots[i]);
    }
}

/// A scan from the head that meets only held slots down to `slot` and finds `slot` free
/// stops there.
proof fn lemma_first_available_found(slots: Seq<HazPtr>, slot: int)
    requires
        0 <= slot < slots.len(),
        !slots[slot].active,
        forall|i: int| slot < i < slots.len() ==> (#[trigger] slots[i]).active,
    ensures
        first_available(slots) == Some(slot),
    decreases slots.len(),
{
    if slot < slots.len() - 1 {
        lemma_first_available_found(slots.drop_last(), slot);
    }
}

/// A scan that meets only held slots finds none.
proof fn lemma_first_available_none(slots: Seq<HazPtr>)
    requires
        forall|i: int| 0 <= i < slots.len() ==> (#[trigger] slots[i]).active,
    ensures
        first_available(slots) is None,
    decreases slots.len(),
{
    if slots.len() > 0 {
        lemma_first_available_none(slots.drop_last());
    }
}

impl List<HazPtr> {
    /// Scans from the head for a slot that nobody holds and takes the first one found.
    pub fn get_available(&mut self) -> (slot: Option<usize>)
        ensures
            match first_available(old(self)@) {
                Some(found) => {
                    &&& slot is Some
                    &&& slot->0 == found
                    &&& final(self)@ == old(self)@.update(
                        found,
                        HazPtr { ptr: old(self)@[found].ptr, active: true },
                    )
                },
                None => slot is None && final(self)@ == old(self)@,
            },
    {
        let mut left: usize = self.count();
        while left > 0
            invariant
                left <= self@.len(),
                self@ == old(self)@,
                forall|i: int| left <= i < self@.len() ==> (#[trigger] self@[i]).active,
            decreases left,
        {
            left = left - 1;
            let mut node: HazPtr = *self.get(left);
            if node.try_acquire() {
                proof {
                    lemma_first_available_found(old(self)@, left as int);
                }
                self.set(left, node);
                return Some(left);
            }
        }
        proof {
            lemma_first_available_none(old(self)@);
        }
        None
    }

    /// Gives the slot back: it announces nothing and nobody holds it.
    pub fn set_node_available(&mut self, slot: usize)
        requires
            slot < old(self)@.len(),
        ensures
            final(self)@ == old(self)@.update(slot as int, HazPtr { ptr: None, active: false }),
    {
        let mut node: HazPtr = *self.get(slot);
        node.reset();
        node.release();
        self.set(slot, node);
    }

    /// Pushes a new slot that its creator holds from the start, announcing `ptr`.
    pub fn push_in_use(&mut self, ptr: Option<usize>) -> (slot: usize)
        ensures
            slot == old(self)@.len(),
            final(self)@ == old(self)@.push(HazPtr { ptr, active: true }),
    {
        let mut node = HazPtr::new(true);
        node.store(ptr);
        self.push(node)
    }
}

} // verus!
