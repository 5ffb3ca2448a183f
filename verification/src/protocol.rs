//! Cells, store guards and their domain taken together, and why a value that a reader has
//! loaded outlives whatever other threads do.
//!
//! Every operation of a cell or of a domain works on shared state in one indivisible step.
//! A reader that loads announces an address in its slot and then finds that address
//! installed in the cell. From that moment on the reader takes no step on its slot until it
//! lets go of the value, while other threads go on to replace, move, retire and reclaim.
use crate::domain::schedule::lemma_step_spares_announced;
use crate::domain::schedule::DomainOp;
use crate::domain::DomainView;
use crate::domain::Retire;
use vstd::prelude::*;

verus! {

/// The shared state of a domain and of what is bound to it: the address installed in each
/// cell, the address owned by each store guard, and the state of the domain.
pub struct World {
    pub installed: Seq<usize>,
    pub held: Seq<usize>,
    pub domain: DomainView,
}

/// One indivisible step of some thread.
pub enum Step {
    /// A step on the domain alone.
    OnDomain(DomainOp),
    /// `swap` or `store`: a new value is installed in `cell`, a store guard gets the old one.
    Swap { cell: int, new: usize },
    /// `swap_from_guard` or `store_from_guard`: the value of `guard` is installed in `cell`,
    /// a store guard gets the old one.
    SwapFromGuard { cell: int, guard: int },
    /// `compare_exchange`: as `Swap` if `current` is installed in `cell`, else nothing.
    CompareExchange { cell: int, current: usize, new: usize },
    /// `compare_exchange_from_guard`: as `SwapFromGuard` if `current` is installed in
    /// `cell`, else nothing.
    CompareExchangeFromGuard { cell: int, current: usize, guard: int },
    /// `StoreGuard::retire`: the value of `guard` is retired as `entry` while the clock
    /// reads `now`.
    RetireGuard { guard: int, entry: Retire, now: Option<u64> },
    /// `retire_installed`: the cell ends and the value installed in it is retired as
    /// `entry` while the clock reads `now`.
    RetireInstalled { cell: int, entry: Retire, now: Option<u64> },
}

impl Step {
    /// Whether the step is one that only the holder of `slot` takes.
    pub open spec fn touches(self, slot: int) -> bool {
        match self {
            Step::OnDomain(op) => op.touches(slot),
            _ => false,
        }
    }
}

impl World {
    /// The world after `new` has been installed in `cell` and the old value has gone to a
    /// new store guard.
    pub open spec fn swap(self, cell: int, new: usize) -> World {
        World {
            installed: self.installed.update(cell, new),
            held: self.held.push(self.installed[cell]),
            ..self
        }
    }

    /// The world after the value of `guard` has been installed in `cell` and the old value
    /// has gone to a new store guard.
    pub open spec fn swap_from_guard(self, cell: int, guard: int) -> World {
        World {
            installed: self.installed.update(cell, self.held[guard]),
            held: self.held.remove(guard).push(self.installed[cell]),
            ..self
        }
    }

    /// The world after one step. A step on a cell or a guard that does not exist, and the
    /// retirement of an entry under another address than that of the guard, change nothing.
    pub open spec fn step(self, step: Step) -> World {
        match step {
            Step::OnDomain(op) => World { domain: self.domain.step(op), ..self },
            Step::Swap { cell, new } => if 0 <= cell < self.installed.len() {
                self.swap(cell, new)
            } else {
                self
            },
            Step::SwapFromGuard { cell, guard } => if 0 <= cell < self.installed.len() && 0
                <= guard < self.held.len() {
                self.swap_from_guard(cell, guard)
            } else {
                self
            },
            Step::CompareExchange { cell, current, new } => if 0 <= cell < self.installed.len()
                && self.installed[cell] == current {
                self.swap(cell, new)
            } else {
                self
            },
            Step::CompareExchangeFromGuard { cell, current, guard } => if 0 <= cell
                < self.installed.len() && 0 <= guard < self.held.len() && self.installed[cell]
                == current {
                self.swap_from_guard(cell, guard)
            } else {
                self
            },
            Step::RetireGuard { guard, entry, now } => if 0 <= guard < self.held.len()
                && entry.address() == self.held[guard] {
                World {
                    held: self.held.remove(guard),
                    domain: self.domain.retire(entry, now),
                    ..self
                }
            } else {
                self
            },
            Step::RetireInstalled { cell, entry, now } => if 0 <= cell < self.installed.len()
                && entry.address() == self.installed[cell] {
                World {
                    installed: self.installed.remove(cell),
                    domain: self.domain.retire(entry, now),
                    ..self
                }
            } else {
                self
            },
        }
    }

    /// The entries one step releases.
    pub open spec fn step_released(self, step: Step) -> Seq<Retire> {
        match step {
            Step::OnDomain(op) => self.domain.step_released(op),
            Step::RetireGuard { guard, entry, now } => if 0 <= guard < self.held.len()
                && entry.address() == self.held[guard] {
                self.domain.retire_released(entry, now)
            } else {
                Seq::empty()
            },
            Step::RetireInstalled { cell, entry, now } => if 0 <= cell < self.installed.len()
                && entry.address() == self.installed[cell] {
                self.domain.retire_released(entry, now)
            } else {
                Seq::empty()
            },
            _ => Seq::empty(),
        }
    }

    /// The world at the end of a schedule.
    pub open spec fn run(self, steps: Seq<Step>) -> World
        decreases steps.len(),
    {
        if steps.len() == 0 {
            self
        } else {
            self.run(steps.drop_last()).step(steps.last())
        }
    }

    /// Everything released along a schedule, in order.
    pub open spec fn run_released(self, steps: Seq<Step>) -> Seq<Retire>
        decreases steps.len(),
    {
        if steps.len() == 0 {
            Seq::empty()
        } else {
            self.run_released(steps.drop_last()) + self.run(steps.drop_last()).step_released(
                steps.last(),
            )
        }
    }

    /// Whether the value known under `ptr` has not been released: it is installed in a
    /// cell, owned by a store guard, or retired.
    pub open spec fn is_live(self, ptr: usize) -> bool {
        ||| self.installed.contains(ptr)
        ||| self.held.contains(ptr)
        ||| exists|entry: Retire| #[trigger]
            self.domain.retired.contains(entry) && entry.address() == ptr
    }
}

/// Taking one owner away leaves the values of the other owners with them.
proof fn lemma_other_guards_stay(held: Seq<usize>, guard: int, ptr: usize)
    requires
        0 <= guard < held.len(),
        held.contains(ptr),
        held[guard] != ptr,
    ensures
        held.remove(guard).contains(ptr),
{
    let k = choose|k: int| 0 <= k < held.len() && held[k] == ptr;
    if k < guard {
        assert(held.remove(guard)[k] == ptr);
    } else {
        assert(held.remove(guard)[k - 1] == ptr);
    }
}

/// One step that is not the reader's keeps a live value live while the reader announces it.
pub proof fn lemma_step_keeps_announced_live(world: World, step: Step, slot: int, ptr: usize)
    requires
        world.domain.announces(slot, ptr),
        world.is_live(ptr),
        !step.touches(slot),
    ensures
        world.step(step).domain.announces(slot, ptr),
        world.step(step).is_live(ptr),
        forall|i: int|
            0 <= i < world.step_released(step).len() ==> (#[trigger] world.step_released(
                step,
            )[i]).address() != ptr,
{
    let after = world.step(step);
    match step {
        Step::OnDomain(op) => {
            lemma_step_spares_announced(world.domain, op, slot, ptr);
            assert(world.step_released(step) == world.domain.step_released(op));
            if !world.installed.contains(ptr) && !world.held.contains(ptr) {
                let entry = choose|entry: Retire| #[trigger]
                    world.domain.retired.contains(entry) && entry.address() == ptr;
                assert(world.domain.holds_retired(entry));
                assert(after.domain.holds_retired(entry));
            }
        },
        Step::Swap { cell, new } => {
            if 0 <= cell < world.installed.len() {
                lemma_swap_keeps_live(world, cell, new, ptr);
            }
        },
        Step::CompareExchange { cell, current, new } => {
            if 0 <= cell < world.installed.len() && world.installed[cell] == current {
                lemma_swap_keeps_live(world, cell, new, ptr);
            }
        },
        Step::SwapFromGuard { cell, guard } => {
            if 0 <= cell < world.installed.len() && 0 <= guard < world.held.len() {
                lemma_swap_from_guard_keeps_live(world, cell, guard, ptr);
            }
        },
        Step::CompareExchangeFromGuard { cell, current, guard } => {
            if 0 <= cell < world.installed.len() && 0 <= guard < world.held.len()
                && world.installed[cell] == current {
                lemma_swap_from_guard_keeps_live(world, cell, guard, ptr);
            }
        },
        Step::RetireGuard { guard, entry, now } => {
            if 0 <= guard < world.held.len() && entry.address() == world.held[guard] {
                let op = DomainOp::Retire { entry, now };
                lemma_step_spares_announced(world.domain, op, slot, ptr);
                assert(world.step_released(step) == world.domain.step_released(op));
                assert(after.domain == world.domain.step(op));
                if world.installed.contains(ptr) {
                } else if world.held.contains(ptr) {
                    if world.held[guard] == ptr {
                        lemma_retired_under_announced_stays(world.domain, entry, now, slot);
                    } else {
                        lemma_other_guards_stay(world.held, guard, ptr);
                    }
                } else {
                    let old_entry = choose|old_entry: Retire| #[trigger]
                        world.domain.retired.contains(old_entry) && old_entry.address() == ptr;
                    assert(world.domain.holds_retired(old_entry));
                    assert(after.domain.holds_retired(old_entry));
                }
            }
        },
        Step::RetireInstalled { cell, entry, now } => {
            if 0 <= cell < world.installed.len() && entry.address() == world.installed[cell] {
                let op = DomainOp::Retire { entry, now };
                lemma_step_spares_announced(world.domain, op, slot, ptr);
                assert(world.step_released(step) == world.domain.step_released(op));
                assert(after.domain == world.domain.step(op));
                if world.installed.contains(ptr) {
                    if world.installed[cell] == ptr {
                        lemma_retired_under_announced_stays(world.domain, entry, now, slot);
                    } else {
                        lemma_other_guards_stay(world.installed, cell, ptr);
                    }
                } else if world.held.contains(ptr) {
                } else {
                    let old_entry = choose|old_entry: Retire| #[trigger]
                        world.domain.retired.contains(old_entry) && old_entry.address() == ptr;
                    assert(world.domain.holds_retired(old_entry));
                    assert(after.domain.holds_retired(old_entry));
                }
            }
        },
    }
}

/// An entry retired under an address that a held slot announces stays retired.
proof fn lemma_retired_under_announced_stays(
    view: DomainView,
    entry: Retire,
    now: Option<u64>,
    slot: int,
)
    requires
        view.announces(slot, entry.address()),
    ensures
        view.retire(entry, now).retired.contains(entry),
{
    let pushed = view.push_retired(entry);
    assert(pushed.retired[view.retired.len() as int] == entry);
    assert(pushed.holds_retired(entry));
    assert(pushed.announces(slot, entry.address()));
    assert(pushed.asked(now).holds_retired(entry));
    assert(pushed.asked(now).announces(slot, entry.address()));
    lemma_step_spares_announced(pushed.asked(now), DomainOp::Reclaim, slot, entry.address());
    assert(pushed.asked(now).step(DomainOp::Reclaim).holds_retired(entry));
}

/// A swap keeps every live value live: the value it replaces goes to a store guard.
proof fn lemma_swap_keeps_live(world: World, cell: int, new: usize, ptr: usize)
    requires
        0 <= cell < world.installed.len(),
        world.is_live(ptr),
    ensures
        world.swap(cell, new).is_live(ptr),
{
    let after = world.swap(cell, new);
    if world.installed.contains(ptr) {
        let c = choose|c: int| 0 <= c < world.installed.len() && world.installed[c] == ptr;
        if c == cell {
            assert(after.held[world.held.len() as int] == ptr);
        } else {
            assert(after.installed[c] == ptr);
        }
    } else if world.held.contains(ptr) {
        let k = choose|k: int| 0 <= k < world.held.len() && world.held[k] == ptr;
        assert(after.held[k] == ptr);
    }
}

/// Installing the value of a store guard keeps every live value live.
proof fn lemma_swap_from_guard_keeps_live(world: World, cell: int, guard: int, ptr: usize)
    requires
        0 <= cell < world.installed.len(),
        0 <= guard < world.held.len(),
        world.is_live(ptr),
    ensures
        world.swap_from_guard(cell, guard).is_live(ptr),
{
    let after = world.swap_from_guard(cell, guard);
    let rest = world.held.remove(guard);
    if world.installed.contains(ptr) {
        let c = choose|c: int| 0 <= c < world.installed.len() && world.installed[c] == ptr;
        if c == cell {
            assert(after.held[rest.len() as int] == ptr);
        } else {
            assert(after.installed[c] == ptr);
        }
    } else if world.held.contains(ptr) {
        if world.held[guard] == ptr {
            assert(after.installed[cell] == ptr);
        } else {
            lemma_other_guards_stay(world.held, guard, ptr);
            let k = choose|k: int| 0 <= k < rest.len() && rest[k] == ptr;
            assert(after.held[k] == ptr);
        }
    }
}

/// A value that a reader has loaded is not released before the reader lets go of it,
/// whatever other threads do in the meantime.
///
/// The reader holds `slot`, has announced `ptr` in it and has then found `ptr` installed in
/// `cell`. At the end of every schedule in which the reader takes no step on its slot, the
/// slot still announces `ptr`, the value known under `ptr` is still installed, owned by a
/// store guard or retired, and nothing that was released was known under `ptr`.
pub proof fn lemma_loaded_value_is_not_released(
    world: World,
    steps: Seq<Step>,
    cell: int,
    slot: int,
    ptr: usize,
)
    requires
        world.domain.announces(slot, ptr),
        0 <= cell < world.installed.len(),
        world.installed[cell] == ptr,
        forall|i: int| 0 <= i < steps.len() ==> !(#[trigger] steps[i]).touches(slot),
    ensures
        world.run(steps).domain.announces(slot, ptr),
        world.run(steps).is_live(ptr),
        forall|i: int|
            0 <= i < world.run_released(steps).len() ==> (#[trigger] world.run_released(
                steps,
            )[i]).address() != ptr,
    decreases steps.len(),
{
    if steps.len() == 0 {
        assert(world.installed.contains(ptr));
    } else {
        let before = steps.drop_last();
        lemma_loaded_value_is_not_released(world, before, cell, slot, ptr);
        lemma_step_keeps_announced_live(world.run(before), steps.last(), slot, ptr);
        let earlier = world.run_released(before);
        let last = world.run(before).step_released(steps.last());
        assert forall|i: int| 0 <= i < world.run_released(steps).len() implies (
        #[trigger] world.run_released(steps)[i]).address() != ptr by {
            if i < earlier.len() {
                assert(world.run_released(steps)[i] == earlier[i]);
            } else {
                assert(world.run_released(steps)[i] == last[i - earlier.len()]);
            }
        }
    }
}

/// What others do leaves the announcement of a held slot standing.
pub proof fn lemma_announcement_stands(world: World, steps: Seq<Step>, slot: int, ptr: usize)
    requires
        world.domain.announces(slot, ptr),
        forall|i: int| 0 <= i < steps.len() ==> !(#[trigger] steps[i]).touches(slot),
    ensures
        world.run(steps).domain.announces(slot, ptr),
    decreases steps.len(),
{
    if steps.len() > 0 {
        let before = steps.drop_last();
        lemma_announcement_stands(world, before, slot, ptr);
        let middle = world.run(before);
        match steps.last() {
            Step::OnDomain(op) => {
                lemma_step_spares_announced(middle.domain, op, slot, ptr);
            },
            Step::RetireGuard { guard, entry, now } => {
                lemma_step_spares_announced(
                    middle.domain,
                    DomainOp::Retire { entry, now },
                    slot,
                    ptr,
                );
            },
            Step::RetireInstalled { cell, entry, now } => {
                lemma_step_spares_announced(
                    middle.domain,
                    DomainOp::Retire { entry, now },
                    slot,
                    ptr,
                );
            },
            _ => {},
        }
    }
}

/// Announcing an address and then finding it installed protects the value.
///
/// A reader that holds `slot` announces `ptr` there. Others take the steps `between`, and
/// then the reader finds `ptr` installed in `cell`. Whatever steps others take `after`
/// that, for as long as the reader leaves its slot alone the value known under `ptr` is not
/// released: it stays installed, owned by a store guard or retired, and nothing that is
/// released is known under `ptr`.
pub proof fn lemma_announce_then_validate_protects(
    world: World,
    slot: int,
    ptr: usize,
    between: Seq<Step>,
    cell: int,
    after: Seq<Step>,
)
    requires
        0 <= slot < world.domain.hazard_ptrs.len(),
        world.domain.hazard_ptrs[slot].active,
        forall|i: int| 0 <= i < between.len() ==> !(#[trigger] between[i]).touches(slot),
        forall|i: int| 0 <= i < after.len() ==> !(#[trigger] after[i]).touches(slot),
        ({
            let seen = world.step(Step::OnDomain(DomainOp::Protect { slot, ptr })).run(between);
            0 <= cell < seen.installed.len() && seen.installed[cell] == ptr
        }),
    ensures
        ({
            let seen = world.step(Step::OnDomain(DomainOp::Protect { slot, ptr })).run(between);
            &&& seen.domain.announces(slot, ptr)
            &&& seen.run(after).domain.announces(slot, ptr)
            &&& seen.run(after).is_live(ptr)
            &&& forall|i: int|
                0 <= i < seen.run_released(after).len() ==> (#[trigger] seen.run_released(
                    after,
                )[i]).address() != ptr
        }),
{
    let announced = world.step(Step::OnDomain(DomainOp::Protect { slot, ptr }));
    lemma_announcement_stands(announced, between, slot, ptr);
    lemma_loaded_value_is_not_released(announced.run(between), after, cell, slot, ptr);
}

} // verus!
