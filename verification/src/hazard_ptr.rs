//! One hazard slot: the address a reader has announced, and whether the slot is taken.
use vstd::prelude::*;

verus! {

/// Where a slot stands in its life cycle.
///
/// `Free -> AcquiredClean -> Protecting(p) -> AcquiredClean -> Free`; only a free slot can
/// be acquired.
#[derive(PartialEq, Eq, Structural, Clone, Copy, Debug)]
pub enum SlotState {
    /// Nobody holds the slot and it announces nothing.
    Free,
    /// A reader holds the slot and announces nothing.
    AcquiredClean,
    /// A reader holds the slot and announces this address.
    Protecting(usize),
}

/// A reusable protection slot.
///
/// `ptr` is the announced address (`None` for the null announcement) and `active` says
/// whether a reader currently holds the slot.
#[derive(Clone, Copy, Debug)]
pub struct HazPtr {
    pub ptr: Option<usize>,
    pub active: bool,
}

impl HazPtr {
    /// A slot that is not held announces nothing.
    pub open spec fn wf(&self) -> bool {
        !self.active ==> self.ptr is None
    }

    /// The life-cycle state of a well-formed slot.
    pub open spec fn state(&self) -> SlotState {
        if !self.active {
            SlotState::Free
        } else {
            match self.ptr {
                None => SlotState::AcquiredClean,
                Some(p) => SlotState::Protecting(p),
            }
        }
    }

    /// A fresh slot announcing nothing, held by its creator when `active` is set.
    pub fn new(active: bool) -> (slot: Self)
        ensures
            slot.ptr is None,
            slot.active == active,
            slot.wf(),
    {
        HazPtr { ptr: None, active }
    }

    /// Withdraws the announcement; the slot stays with its holder.
    pub fn reset(&mut self)
        ensures
            final(self).ptr is None,
            final(self).active == old(self).active,
    {
        self.ptr = None;
    }

    /// Announces `ptr`. Only the holder of the slot may announce.
    pub fn protect(&mut self, ptr: usize)
        requires
            old(self).active,
        ensures
            final(self).ptr == Some(ptr),
            final(self).active,
            final(self).state() == SlotState::Protecting(ptr),
    {
        self.ptr = Some(ptr);
    }

    /// Gives the slot back: the announcement is withdrawn first, then the slot is freed.
    pub fn release(&mut self)
        ensures
            final(self).state() == SlotState::Free,
            final(self).ptr is None,
            !final(self).active,
    {
        self.ptr = None;
        self.active = false;
    }

    /// Takes the slot if nobody holds it, and says whether it did.
    pub fn try_acquire(&mut self) -> (won: bool)
        ensures
            won == !old(self).active,
            final(self).active,
            final(self).ptr == old(self).ptr,
            won && old(self).wf() ==> final(self).state() == SlotState::AcquiredClean,
    {
        if self.active {
            false
        } else {
            self.active = true;
            true
        }
    }

    /// The announced address, `None` when the slot announces nothing.
    pub fn load(&self) -> (ptr: Option<usize>)
        ensures
            ptr == self.ptr,
    {
        self.ptr
    }

    /// Replaces the announcement with `value`.
    pub fn store(&mut self, value: Option<usize>)
        requires
            old(self).active || value is None,
        ensures
            final(self).ptr == value,
            final(self).active == old(self).active,
    {
        self.ptr = value;
    }

    /// Whether a reader holds the slot.
    pub fn is_active(&self) -> (active: bool)
        ensures
            active == self.active,
    {
        self.active
    }
}

} // verus!
