//! Schedules of domain operations, and what holds at the end of every one of them.
//!
//! Each operation of a shared domain works on the state in one indivisible step, so what
//! several threads do to a domain amounts to some sequence of steps. The theorems here speak
//! of all such sequences.
use crate::domain::retire::is_guarded;
use crate::domain::retire::is_unguarded;
use crate::domain::hazard_pointer_list::lemma_first_available;
use crate::domain::DomainView;
use crate::domain::Retire;
use crate::hazard_ptr::HazPtr;
use vstd::multiset::Multiset;
use vstd::prelude::*;

verus! {

/// One step on the state of a domain.
pub enum DomainOp {
    /// A reader acquires a slot.
    Acquire,
    /// The holder of `slot` announces `ptr`.
    Protect { slot: int, ptr: usize },
    /// The holder of `slot` withdraws its announcement.
    Reset { slot: int },
    /// The holder of `slot` gives it back.
    Release { slot: int },
    /// `entry` is retired while the clock reads `now`.
    Retire { entry: Retire, now: Option<u64> },
    /// A reclamation is forced.
    Reclaim,
}

impl DomainOp {
    /// Whether the step is one that only the holder of `slot` takes.
    pub open spec fn touches(self, slot: int) -> bool {
        match self {
            DomainOp::Protect { slot: touched, .. } => touched == slot,
            DomainOp::Reset { slot: touched } => touched == slot,
            DomainOp::Release { slot: touched } => touched == slot,
            _ => false,
        }
    }

    /// The entries the step hands to the domain.
    pub open spec fn retires(self) -> Seq<Retire> {
        match self {
            DomainOp::Retire { entry, .. } => seq![entry],
            _ => Seq::empty(),
        }
    }
}

/// The entries handed to the domain along a schedule, in order.
pub open spec fn retired_by(ops: Seq<DomainOp>) -> Seq<Retire>
    decreases ops.len(),
{
    if ops.len() == 0 {
        Seq::empty()
    } else {
        retired_by(ops.drop_last()) + ops.last().retires()
    }
}

impl DomainView {
    /// The state after one step. A step on a slot that does not exist, or an announcement
    /// in a slot that nobody holds, changes nothing.
    pub open spec fn step(self, op: DomainOp) -> DomainView {
        match op {
            DomainOp::Acquire => self.acquire(),
            DomainOp::Protect { slot, ptr } => if 0 <= slot < self.hazard_ptrs.len()
                && self.hazard_ptrs[slot].active {
                self.protect(slot, ptr)
            } else {
                self
            },
            DomainOp::Reset { slot } => if 0 <= slot < self.hazard_ptrs.len() {
                self.reset(slot)
            } else {
                self
            },
            DomainOp::Release { slot } => if 0 <= slot < self.hazard_ptrs.len() {
                self.release(slot)
            } else {
                self
            },
            DomainOp::Retire { entry, now } => self.retire(entry, now),
            DomainOp::Reclaim => self.reclaim(),
        }
    }

    /// The entries one step releases.
    pub open spec fn step_released(self, op: DomainOp) -> Seq<Retire> {
        match op {
            DomainOp::Retire { entry, now } => self.retire_released(entry, now),
            DomainOp::Reclaim => self.released(),
            _ => Seq::empty(),
        }
    }

    /// The state at the end of a schedule.
    pub open spec fn run(self, ops: Seq<DomainOp>) -> DomainView
        decreases ops.len(),
    {
        if ops.len() == 0 {
            self
        } else {
            self.run(ops.drop_last()).step(ops.last())
        }
    }

    /// Everything released along a schedule, in order.
    pub open spec fn run_released(self, ops: Seq<DomainOp>) -> Seq<Retire>
        decreases ops.len(),
    {
        if ops.len() == 0 {
            Seq::empty()
        } else {
            self.run_released(ops.drop_last()) + self.run(ops.drop_last()).step_released(
                ops.last(),
            )
        }
    }

    /// Whether `slot` is held and announces `ptr`.
    pub open spec fn announces(self, slot: int, ptr: usize) -> bool {
        &&& 0 <= slot < self.hazard_ptrs.len()
        &&& self.hazard_ptrs[slot] == HazPtr { ptr: Some(ptr), active: true }
    }

    /// Whether `entry` is on the retire list.
    pub open spec fn holds_retired(self, entry: Retire) -> bool {
        self.retired.contains(entry)
    }
}

/// A reclamation keeps every retired entry that a slot announces and releases only entries
/// that no slot announces.
pub proof fn lemma_reclaim_spares_announced(view: DomainView)
    ensures
        forall|entry: Retire|
            view.retired.contains(entry) && view.guarded().contains(entry.address())
                ==> #[trigger] view.kept().contains(entry),
        forall|i: int|
            0 <= i < view.released().len() ==> !view.guarded().contains(
                (#[trigger] view.released()[i]).address(),
            ),
        forall|i: int|
            0 <= i < view.kept().len() ==> view.guarded().contains(
                (#[trigger] view.kept()[i]).address(),
            ),
        forall|entry: Retire|
            view.retired.contains(entry) && !view.guarded().contains(entry.address())
                ==> #[trigger] view.released().contains(entry),
{
    broadcast use vstd::seq_lib::group_filter_ensures;

    let walk = view.retired.reverse();
    let keep = is_guarded(view.guarded());
    let free = is_unguarded(view.guarded());
    assert forall|entry: Retire|
        view.retired.contains(entry) && view.guarded().contains(
            entry.address(),
        ) implies #[trigger] view.kept().contains(entry) by {
        let i = choose|i: int| 0 <= i < view.retired.len() && view.retired[i] == entry;
        assert(walk[view.retired.len() - 1 - i] == entry);
        assert(keep(walk[view.retired.len() - 1 - i]));
    }
    assert forall|entry: Retire|
        view.retired.contains(entry) && !view.guarded().contains(
            entry.address(),
        ) implies #[trigger] view.released().contains(entry) by {
        let i = choose|i: int| 0 <= i < view.retired.len() && view.retired[i] == entry;
        assert(walk[view.retired.len() - 1 - i] == entry);
        assert(free(walk[view.retired.len() - 1 - i]));
    }
    assert forall|i: int| 0 <= i < view.released().len() implies !view.guarded().contains(
        (#[trigger] view.released()[i]).address(),
    ) by {
        assert(free(walk.filter(free)[i]));
    }
    assert forall|i: int| 0 <= i < view.kept().len() implies view.guarded().contains(
        (#[trigger] view.kept()[i]).address(),
    ) by {
        assert(keep(walk.filter(keep)[i]));
    }
}

/// One step that is not the holder's leaves a held slot and its announcement alone, releases
/// no entry under the announced address, and keeps retired what is retired under it.
pub proof fn lemma_step_spares_announced(view: DomainView, op: DomainOp, slot: int, ptr: usize)
    requires
        view.announces(slot, ptr),
        !op.touches(slot),
    ensures
        view.step(op).announces(slot, ptr),
        forall|i: int|
            0 <= i < view.step_released(op).len() ==> (#[trigger] view.step_released(
                op,
            )[i]).address() != ptr,
        forall|entry: Retire|
            view.holds_retired(entry) && entry.address() == ptr ==> #[trigger] view.step(
                op,
            ).holds_retired(entry),
{
    assert(view.guarded().contains(ptr)) by {
        assert(view.hazard_ptrs[slot].ptr == Some(ptr));
    }
    match op {
        DomainOp::Acquire => {
            lemma_first_available(view.hazard_ptrs);
        },
        DomainOp::Retire { entry, now } => {
            let pushed = view.push_retired(entry);
            let asked = pushed.asked(now);
            assert(asked.guarded() == view.guarded());
            assert(pushed.guarded() == view.guarded());
            lemma_reclaim_spares_announced(asked);
            lemma_reclaim_spares_announced(pushed);
            assert(asked.kept() == pushed.kept());
            assert forall|kept: Retire|
                view.holds_retired(kept) && kept.address() == ptr implies #[trigger] view.step(
                op,
            ).holds_retired(kept) by {
                let i = choose|i: int| 0 <= i < view.retired.len() && view.retired[i] == kept;
                assert(pushed.retired[i] == kept);
            }
        },
        DomainOp::Reclaim => {
            lemma_reclaim_spares_announced(view);
        },
        _ => {},
    }
}

/// No schedule of steps by others releases a value that a held slot announces.
///
/// If `slot` is held and announces `ptr`, then at the end of any schedule in which its holder
/// takes no step the slot still announces `ptr`, no entry retired under `ptr` has been
/// released, and every entry that was retired under `ptr` at the start is still retired.
pub proof fn lemma_announced_is_never_released(
    view: DomainView,
    ops: Seq<DomainOp>,
    slot: int,
    ptr: usize,
)
    requires
        view.announces(slot, ptr),
        forall|i: int| 0 <= i < ops.len() ==> !(#[trigger] ops[i]).touches(slot),
    ensures
        view.run(ops).announces(slot, ptr),
        forall|i: int|
            0 <= i < view.run_released(ops).len() ==> (#[trigger] view.run_released(
                ops,
            )[i]).address() != ptr,
        forall|entry: Retire|
            view.holds_retired(entry) && entry.address() == ptr ==> #[trigger] view.run(
                ops,
            ).holds_retired(entry),
    decreases ops.len(),
{
    if ops.len() > 0 {
        let before = ops.drop_last();
        lemma_announced_is_never_released(view, before, slot, ptr);
        lemma_step_spares_announced(view.run(before), ops.last(), slot, ptr);
        let earlier = view.run_released(before);
        let last = view.run(before).step_released(ops.last());
        assert forall|i: int| 0 <= i < view.run_released(ops).len() implies (
        #[trigger] view.run_released(ops)[i]).address() != ptr by {
            if i < earlier.len() {
                assert(view.run_released(ops)[i] == earlier[i]);
            } else {
                assert(view.run_released(ops)[i] == last[i - earlier.len()]);
            }
        }
    }
}

/// Once the last slot that announces an address has been given back, nothing announces
/// the address any more.
pub proof fn lemma_release_withdraws_announcement(view: DomainView, slot: int, ptr: usize)
    requires
        0 <= slot < view.hazard_ptrs.len(),
        forall|i: int|
            0 <= i < view.hazard_ptrs.len() && i != slot ==> (#[trigger] view.hazard_ptrs[i]).ptr
                != Some(ptr),
    ensures
        !view.release(slot).guarded().contains(ptr),
{
}

/// Under the eager strategy, a retired value that nothing announces is released by the
/// next retirement, whatever is retired and whatever the clock reads: the retirement hands
/// the value out and leaves nothing retired under its address.
pub proof fn lemma_eager_retire_releases_unannounced(
    view: DomainView,
    stale: Retire,
    entry: Retire,
    now: Option<u64>,
)
    requires
        view.reclaim_strategy is Eager,
        view.holds_retired(stale),
        !view.guarded().contains(stale.address()),
    ensures
        view.retire_released(entry, now).contains(stale),
        forall|i: int|
            0 <= i < view.retire(entry, now).retired.len() ==> (#[trigger] view.retire(
                entry,
                now,
            ).retired[i]).address() != stale.address(),
{
    let pushed = view.push_retired(entry);
    let asked = pushed.asked(now);
    assert(pushed.fires(now));
    assert(pushed.guarded() == view.guarded());
    assert(asked.guarded() == view.guarded());
    let i = choose|i: int| 0 <= i < view.retired.len() && view.retired[i] == stale;
    assert(pushed.retired[i] == stale);
    lemma_reclaim_spares_announced(pushed);
    lemma_reclaim_spares_announced(asked);
}

/// Parting a chain into the announced and the unannounced loses and repeats nothing,
/// whatever is read off each entry: what `read` gives on the kept entries together with
/// what it gives on the released ones is what it gives on the whole chain.
pub proof fn lemma_split_conserves<A>(
    chain: Seq<Retire>,
    guarded: Set<usize>,
    read: spec_fn(Retire) -> A,
)
    ensures
        chain.filter(is_guarded(guarded)).map_values(read).to_multiset().add(
            chain.filter(is_unguarded(guarded)).map_values(read).to_multiset(),
        ) == chain.map_values(read).to_multiset(),
    decreases chain.len(),
{
    broadcast use vstd::seq_lib::group_to_multiset_ensures;

    reveal(Seq::filter);
    let keep = chain.filter(is_guarded(guarded));
    let free = chain.filter(is_unguarded(guarded));
    if chain.len() == 0 {
        assert(keep.map_values(read).to_multiset().add(free.map_values(read).to_multiset())
            =~= chain.map_values(read).to_multiset());
    } else {
        let rest = chain.drop_last();
        let last = chain.last();
        let rest_keep = rest.filter(is_guarded(guarded));
        let rest_free = rest.filter(is_unguarded(guarded));
        lemma_split_conserves(rest, guarded, read);
        assert(chain == rest.push(last));
        assert(chain.map_values(read) =~= rest.map_values(read).push(read(last)));
        assert(rest_keep.push(last).map_values(read) =~= rest_keep.map_values(read).push(
            read(last),
        ));
        assert(rest_free.push(last).map_values(read) =~= rest_free.map_values(read).push(
            read(last),
        ));
        assert(keep.map_values(read).to_multiset().add(free.map_values(read).to_multiset())
            =~= chain.map_values(read).to_multiset());
    }
}

/// A reclamation hands out or keeps each retired entry exactly once.
pub proof fn lemma_reclaim_conserves(view: DomainView)
    ensures
        view.kept().to_multiset().add(view.released().to_multiset())
            == view.retired.to_multiset(),
        view.reclaim().retired == view.kept(),
{
    let itself = |entry: Retire| entry;
    let walk = view.retired.reverse();
    lemma_split_conserves(walk, view.guarded(), itself);
    assert(walk.map_values(itself) =~= walk);
    assert(view.kept().map_values(itself) =~= view.kept());
    assert(view.released().map_values(itself) =~= view.released());
    view.retired.lemma_reverse_to_multiset();
}

/// One step hands out or keeps each retired entry exactly once.
pub proof fn lemma_step_conserves(view: DomainView, op: DomainOp)
    ensures
        view.step(op).retired.to_multiset().add(view.step_released(op).to_multiset())
            == view.retired.to_multiset().add(op.retires().to_multiset()),
{
    broadcast use vstd::seq_lib::group_to_multiset_ensures;

    match op {
        DomainOp::Retire { entry, now } => {
            let pushed = view.push_retired(entry);
            let asked = pushed.asked(now);
            assert(asked.guarded() == pushed.guarded());
            lemma_reclaim_conserves(asked);
            assert(seq![entry].to_multiset() =~= Multiset::<Retire>::empty().insert(entry)) by {
                assert(seq![entry] =~= Seq::<Retire>::empty().push(entry));
            }
            assert(Seq::<Retire>::empty().to_multiset() =~= Multiset::<Retire>::empty());
            assert(view.step(op).retired.to_multiset().add(view.step_released(op).to_multiset())
                =~= view.retired.to_multiset().add(op.retires().to_multiset()));
        },
        DomainOp::Reclaim => {
            lemma_reclaim_conserves(view);
            assert(Seq::<Retire>::empty().to_multiset() =~= Multiset::<Retire>::empty());
            assert(view.step(op).retired.to_multiset().add(view.step_released(op).to_multiset())
                =~= view.retired.to_multiset().add(op.retires().to_multiset()));
        },
        _ => {
            assert(Seq::<Retire>::empty().to_multiset() =~= Multiset::<Retire>::empty());
            assert(view.step(op).retired.to_multiset().add(view.step_released(op).to_multiset())
                =~= view.retired.to_multiset().add(op.retires().to_multiset()));
        },
    }
}

/// Along every schedule each entry is accounted for exactly once: what was retired at the
/// start together with what was retired on the way is what is still retired at the end
/// together with what was released on the way.
pub proof fn lemma_run_conserves(view: DomainView, ops: Seq<DomainOp>)
    ensures
        view.run(ops).retired.to_multiset().add(view.run_released(ops).to_multiset())
            == view.retired.to_multiset().add(retired_by(ops).to_multiset()),
    decreases ops.len(),
{
    broadcast use vstd::seq_lib::group_to_multiset_ensures;

    if ops.len() == 0 {
        assert(Seq::<Retire>::empty().to_multiset() =~= Multiset::<Retire>::empty());
        assert(view.run(ops).retired.to_multiset().add(view.run_released(ops).to_multiset())
            =~= view.retired.to_multiset().add(retired_by(ops).to_multiset()));
    } else {
        let before = ops.drop_last();
        lemma_run_conserves(view, before);
        lemma_step_conserves(view.run(before), ops.last());
        let middle = view.run(before);
        let earlier = view.run_released(before);
        let last = middle.step_released(ops.last());
        vstd::seq_lib::lemma_multiset_commutative(earlier, last);
        vstd::seq_lib::lemma_multiset_commutative(retired_by(before), ops.last().retires());
        assert(view.run_released(ops).to_multiset() =~= earlier.to_multiset().add(
            last.to_multiset(),
        ));
        assert(retired_by(ops).to_multiset() =~= retired_by(before).to_multiset().add(
            ops.last().retires().to_multiset(),
        ));
        let kept_now = view.run(ops).retired.to_multiset();
        let kept_then = middle.retired.to_multiset();
        assert(kept_now.add(last.to_multiset()) == kept_then.add(
            ops.last().retires().to_multiset(),
        ));
        assert(kept_then.add(earlier.to_multiset()) == view.retired.to_multiset().add(
            retired_by(before).to_multiset(),
        ));
        assert(kept_now.add(earlier.to_multiset().add(last.to_multiset())) =~= kept_now.add(
            last.to_multiset(),
        ).add(earlier.to_multiset()));
        assert(kept_then.add(ops.last().retires().to_multiset()).add(earlier.to_multiset())
            =~= kept_then.add(earlier.to_multiset()).add(ops.last().retires().to_multiset()));
        assert(view.retired.to_multiset().add(retired_by(before).to_multiset()).add(
            ops.last().retires().to_multiset(),
        ) =~= view.retired.to_multiset().add(
            retired_by(before).to_multiset().add(ops.last().retires().to_multiset()),
        ));
    }
}

/// Once nothing is announced any more, one reclamation releases all that is left: every
/// entry that was ever retired has then been released exactly once.
pub proof fn lemma_last_reclaim_releases_all(view: DomainView, ops: Seq<DomainOp>)
    requires
        view.run(ops).guarded() == Set::<usize>::empty(),
    ensures
        view.run(ops.push(DomainOp::Reclaim)).retired == Seq::<Retire>::empty(),
        view.run_released(ops.push(DomainOp::Reclaim)).to_multiset()
            == view.retired.to_multiset().add(retired_by(ops).to_multiset()),
{
    broadcast use vstd::seq_lib::group_to_multiset_ensures;

    let all = ops.push(DomainOp::Reclaim);
    assert(all.drop_last() == ops);
    let end = view.run(ops);
    lemma_reclaim_spares_announced(end);
    assert(end.kept().len() == 0) by {
        if end.kept().len() > 0 {
            assert(end.guarded().contains(end.kept()[0].address()));
        }
    }
    assert(end.kept() =~= Seq::<Retire>::empty());
    lemma_run_conserves(view, all);
    assert(retired_by(all) =~= retired_by(ops));
    assert(Seq::<Retire>::empty().to_multiset() =~= Multiset::<Retire>::empty());
    assert(view.run_released(all).to_multiset() =~= view.retired.to_multiset().add(
        retired_by(ops).to_multiset(),
    ));
}

} // verus!
