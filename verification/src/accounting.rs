//! An account of every value: none is lost and none is released twice.
//!
//! A value exists from the moment it is installed in a cell until it is released. In
//! between it is installed, owned by a store guard, or retired. The theorems here follow
//! the values through every schedule of steps.
use crate::domain::schedule::lemma_reclaim_spares_announced;
use crate::domain::schedule::lemma_split_conserves;
use crate::domain::schedule::DomainOp;
use crate::domain::DomainView;
use crate::domain::Retire;
use crate::protocol::Step;
use crate::protocol::World;
use vstd::multiset::Multiset;
use vstd::prelude::*;

verus! {

/// The addresses that a sequence of entries is known under, in order.
pub open spec fn addresses(entries: Seq<Retire>) -> Seq<usize> {
    entries.map_values(|entry: Retire| entry.address())
}

impl World {
    /// The values that exist, each as often as it exists: what is installed in a cell, what
    /// a store guard owns and what is retired.
    pub open spec fn values(self) -> Multiset<usize> {
        self.installed.to_multiset().add(self.held.to_multiset()).add(
            addresses(self.domain.retired).to_multiset(),
        )
    }

    /// The values that one step brings into existence: the value that a swap or a
    /// compare-and-exchange installs, and what is retired with no cell or guard to come
    /// from. A value that a failed compare-and-exchange offered never comes into existence.
    pub open spec fn step_brings(self, step: Step) -> Multiset<usize> {
        match step {
            Step::Swap { cell, new } => if 0 <= cell < self.installed.len() {
                Multiset::singleton(new)
            } else {
                Multiset::empty()
            },
            Step::CompareExchange { cell, current, new } => if 0 <= cell < self.installed.len()
                && self.installed[cell] == current {
                Multiset::singleton(new)
            } else {
                Multiset::empty()
            },
            Step::OnDomain(op) => addresses(op.retires()).to_multiset(),
            _ => Multiset::empty(),
        }
    }

    /// The values that come into existence along a schedule.
    pub open spec fn run_brings(self, steps: Seq<Step>) -> Multiset<usize>
        decreases steps.len(),
    {
        if steps.len() == 0 {
            Multiset::empty()
        } else {
            self.run_brings(steps.drop_last()).add(
                self.run(steps.drop_last()).step_brings(steps.last()),
            )
        }
    }
}

/// No entries have no addresses, and no addresses are no values.
proof fn lemma_no_addresses()
    ensures
        addresses(Seq::<Retire>::empty()) == Seq::<usize>::empty(),
        Seq::<usize>::empty().to_multiset() == Multiset::<usize>::empty(),
{
    broadcast use vstd::seq_lib::group_to_multiset_ensures;

    assert(addresses(Seq::<Retire>::empty()) =~= Seq::<usize>::empty());
    assert(Seq::<usize>::empty().to_multiset() =~= Multiset::<usize>::empty());
}

/// The addresses of a chain with one more entry are the addresses of the chain with one
/// more address.
proof fn lemma_addresses_push(chain: Seq<Retire>, entry: Retire)
    ensures
        addresses(chain.push(entry)) == addresses(chain).push(entry.address()),
        addresses(seq![entry]) == seq![entry.address()],
{
    assert(addresses(chain.push(entry)) =~= addresses(chain).push(entry.address()));
    assert(addresses(seq![entry]) =~= seq![entry.address()]);
}

/// The addresses of two chains joined are the addresses of each, joined, and the addresses
/// of a chain walked backwards are its addresses walked backwards.
proof fn lemma_addresses_join(chain: Seq<Retire>, other: Seq<Retire>)
    ensures
        addresses(chain + other) == addresses(chain) + addresses(other),
        addresses(chain.reverse()) == addresses(chain).reverse(),
{
    assert(addresses(chain + other) =~= addresses(chain) + addresses(other));
    assert(addresses(chain.reverse()) =~= addresses(chain).reverse());
}

/// A reclamation accounts for every retired value: each is kept or released, once.
proof fn lemma_reclaim_accounts(view: DomainView)
    ensures
        addresses(view.kept()).to_multiset().add(addresses(view.released()).to_multiset())
            == addresses(view.retired).to_multiset(),
{
    lemma_split_conserves(
        view.retired.reverse(),
        view.guarded(),
        |entry: Retire| entry.address(),
    );
    lemma_addresses_join(view.retired, Seq::empty());
    addresses(view.retired).lemma_reverse_to_multiset();
}

/// One step on the domain accounts for every retired value.
proof fn lemma_domain_step_accounts(view: DomainView, op: DomainOp)
    ensures
        addresses(view.step(op).retired).to_multiset().add(
            addresses(view.step_released(op)).to_multiset(),
        ) == addresses(view.retired).to_multiset().add(addresses(op.retires()).to_multiset()),
{
    broadcast use vstd::seq_lib::group_to_multiset_ensures;

    lemma_no_addresses();
    match op {
        DomainOp::Retire { entry, now } => {
            let pushed = view.push_retired(entry);
            let asked = pushed.asked(now);
            assert(asked.guarded() == pushed.guarded());
            lemma_reclaim_accounts(asked);
            lemma_addresses_push(view.retired, entry);
            assert(seq![entry.address()] =~= Seq::<usize>::empty().push(entry.address()));
            assert(addresses(view.step(op).retired).to_multiset().add(
                addresses(view.step_released(op)).to_multiset(),
            ) =~= addresses(view.retired).to_multiset().add(
                addresses(op.retires()).to_multiset(),
            ));
        },
        DomainOp::Reclaim => {
            lemma_reclaim_accounts(view);
            assert(addresses(view.step(op).retired).to_multiset().add(
                addresses(view.step_released(op)).to_multiset(),
            ) =~= addresses(view.retired).to_multiset().add(
                addresses(op.retires()).to_multiset(),
            ));
        },
        _ => {
            assert(addresses(view.step(op).retired).to_multiset().add(
                addresses(view.step_released(op)).to_multiset(),
            ) =~= addresses(view.retired).to_multiset().add(
                addresses(op.retires()).to_multiset(),
            ));
        },
    }
}

/// A swap accounts for every value: the one it installs is new, the one it replaces goes
/// to a store guard.
proof fn lemma_swap_accounts(world: World, cell: int, new: usize)
    requires
        0 <= cell < world.installed.len(),
    ensures
        world.swap(cell, new).values() == world.values().add(Multiset::singleton(new)),
{
    broadcast use vstd::seq_lib::group_to_multiset_ensures;

    vstd::seq_lib::to_multiset_update(world.installed, cell, new);
    assert(world.installed.to_multiset().count(world.installed[cell]) > 0) by {
        assert(world.installed.contains(world.installed[cell]));
    }
    assert(world.swap(cell, new).values() =~= world.values().add(Multiset::singleton(new)));
}

/// Installing the value of a store guard accounts for every value: the two change places.
proof fn lemma_swap_from_guard_accounts(world: World, cell: int, guard: int)
    requires
        0 <= cell < world.installed.len(),
        0 <= guard < world.held.len(),
    ensures
        world.swap_from_guard(cell, guard).values() == world.values(),
{
    broadcast use vstd::seq_lib::group_to_multiset_ensures;

    vstd::seq_lib::to_multiset_update(world.installed, cell, world.held[guard]);
    vstd::seq_lib::to_multiset_remove(world.held, guard);
    assert(world.installed.to_multiset().count(world.installed[cell]) > 0) by {
        assert(world.installed.contains(world.installed[cell]));
    }
    assert(world.held.to_multiset().count(world.held[guard]) > 0) by {
        assert(world.held.contains(world.held[guard]));
    }
    assert(world.swap_from_guard(cell, guard).values() =~= world.values());
}

/// A retirement out of a cell or a store guard accounts for every value: the value leaves
/// its owner for the retire list, and what the domain releases leaves the retire list.
proof fn lemma_retirement_accounts(
    owners: Seq<usize>,
    owner: int,
    view: DomainView,
    entry: Retire,
    now: Option<u64>,
)
    requires
        0 <= owner < owners.len(),
        entry.address() == owners[owner],
    ensures
        owners.remove(owner).to_multiset().add(
            addresses(view.retire(entry, now).retired).to_multiset(),
        ).add(addresses(view.retire_released(entry, now)).to_multiset())
            == owners.to_multiset().add(addresses(view.retired).to_multiset()),
{
    broadcast use vstd::seq_lib::group_to_multiset_ensures;

    let op = DomainOp::Retire { entry, now };
    lemma_domain_step_accounts(view, op);
    lemma_addresses_push(Seq::empty(), entry);
    assert(seq![entry.address()] =~= Seq::<usize>::empty().push(entry.address()));
    vstd::seq_lib::to_multiset_remove(owners, owner);
    assert(owners.to_multiset().count(owners[owner]) > 0) by {
        assert(owners.contains(owners[owner]));
    }
    let kept = addresses(view.retire(entry, now).retired).to_multiset();
    let released = addresses(view.retire_released(entry, now)).to_multiset();
    assert(kept.add(released) == addresses(view.retired).to_multiset().add(
        seq![entry.address()].to_multiset(),
    ));
    assert(owners.remove(owner).to_multiset().add(kept).add(released)
        =~= owners.remove(owner).to_multiset().add(kept.add(released)));
    assert(owners.remove(owner).to_multiset().add(kept.add(released))
        =~= owners.to_multiset().add(addresses(view.retired).to_multiset()));
}

/// One step accounts for every value: what exists after it, together with what it
/// released, is what existed before it together with what it brought into existence.
pub proof fn lemma_step_accounts(world: World, step: Step)
    ensures
        world.step(step).values().add(addresses(world.step_released(step)).to_multiset())
            == world.values().add(world.step_brings(step)),
{
    broadcast use vstd::seq_lib::group_to_multiset_ensures;

    let after = world.step(step);
    let released = addresses(world.step_released(step)).to_multiset();
    lemma_no_addresses();
    match step {
        Step::OnDomain(op) => {
            lemma_domain_step_accounts(world.domain, op);
            let owned = world.installed.to_multiset().add(world.held.to_multiset());
            let kept = addresses(after.domain.retired).to_multiset();
            assert(released == addresses(world.domain.step_released(op)).to_multiset());
            assert(kept.add(released) == addresses(world.domain.retired).to_multiset().add(
                world.step_brings(step),
            ));
            assert(after.values().add(released) =~= owned.add(kept.add(released)));
            assert(owned.add(kept.add(released)) =~= world.values().add(
                world.step_brings(step),
            ));
        },
        Step::Swap { cell, new } => {
            if 0 <= cell < world.installed.len() {
                lemma_swap_accounts(world, cell, new);
            }
            assert(after.values().add(released) =~= world.values().add(world.step_brings(step)));
        },
        Step::CompareExchange { cell, current, new } => {
            if 0 <= cell < world.installed.len() && world.installed[cell] == current {
                lemma_swap_accounts(world, cell, new);
            }
            assert(after.values().add(released) =~= world.values().add(world.step_brings(step)));
        },
        Step::SwapFromGuard { cell, guard } => {
            if 0 <= cell < world.installed.len() && 0 <= guard < world.held.len() {
                lemma_swap_from_guard_accounts(world, cell, guard);
            }
            assert(after.values().add(released) =~= world.values().add(world.step_brings(step)));
        },
        Step::CompareExchangeFromGuard { cell, current, guard } => {
            if 0 <= cell < world.installed.len() && 0 <= guard < world.held.len()
                && world.installed[cell] == current {
                lemma_swap_from_guard_accounts(world, cell, guard);
            }
            assert(after.values().add(released) =~= world.values().add(world.step_brings(step)));
        },
        Step::RetireGuard { guard, entry, now } => {
            if 0 <= guard < world.held.len() && entry.address() == world.held[guard] {
                lemma_retirement_accounts(world.held, guard, world.domain, entry, now);
                let kept = addresses(after.domain.retired).to_multiset();
                let moved = after.held.to_multiset().add(kept).add(released);
                assert(moved == world.held.to_multiset().add(
                    addresses(world.domain.retired).to_multiset(),
                ));
                assert(after.values().add(released) =~= world.installed.to_multiset().add(moved));
                assert(world.installed.to_multiset().add(moved) =~= world.values());
            }
            assert(after.values().add(released) =~= world.values().add(world.step_brings(step)));
        },
        Step::RetireInstalled { cell, entry, now } => {
            if 0 <= cell < world.installed.len() && entry.address() == world.installed[cell] {
                lemma_retirement_accounts(world.installed, cell, world.domain, entry, now);
                let kept = addresses(after.domain.retired).to_multiset();
                let moved = after.installed.to_multiset().add(kept).add(released);
                assert(moved == world.installed.to_multiset().add(
                    addresses(world.domain.retired).to_multiset(),
                ));
                assert(after.values().add(released) =~= world.held.to_multiset().add(moved));
                assert(world.held.to_multiset().add(moved) =~= world.values());
            }
            assert(after.values().add(released) =~= world.values().add(world.step_brings(step)));
        },
    }
}

/// Every schedule accounts for every value: what exists at its end, together with what was
/// released on the way, is what existed at its start together with what came into
/// existence on the way. No value is lost and none is released twice.
pub proof fn lemma_run_accounts(world: World, steps: Seq<Step>)
    ensures
        world.run(steps).values().add(addresses(world.run_released(steps)).to_multiset())
            == world.values().add(world.run_brings(steps)),
    decreases steps.len(),
{
    broadcast use vstd::seq_lib::group_to_multiset_ensures;

    lemma_no_addresses();
    if steps.len() == 0 {
        assert(world.run(steps).values().add(addresses(world.run_released(steps)).to_multiset())
            =~= world.values().add(world.run_brings(steps)));
    } else {
        let before = steps.drop_last();
        let middle = world.run(before);
        let earlier = world.run_released(before);
        let last = middle.step_released(steps.last());
        lemma_run_accounts(world, before);
        lemma_step_accounts(middle, steps.last());
        lemma_addresses_join(earlier, last);
        vstd::seq_lib::lemma_multiset_commutative(addresses(earlier), addresses(last));
        let end = world.run(steps).values();
        assert(addresses(world.run_released(steps)).to_multiset() =~= addresses(
            earlier,
        ).to_multiset().add(addresses(last).to_multiset()));
        assert(end.add(addresses(last).to_multiset()) == middle.values().add(
            middle.step_brings(steps.last()),
        ));
        assert(end.add(addresses(earlier).to_multiset().add(addresses(last).to_multiset()))
            =~= end.add(addresses(last).to_multiset()).add(addresses(earlier).to_multiset()));
        assert(middle.values().add(middle.step_brings(steps.last())).add(
            addresses(earlier).to_multiset(),
        ) =~= middle.values().add(addresses(earlier).to_multiset()).add(
            middle.step_brings(steps.last()),
        ));
        assert(world.values().add(world.run_brings(before)).add(
            middle.step_brings(steps.last()),
        ) =~= world.values().add(world.run_brings(steps)));
    }
}

/// When all is over, every value has been released exactly once.
///
/// Take any schedule at whose end no cell and no store guard is left and no slot announces
/// anything. One last reclamation then leaves nothing retired, and what has been released
/// in all is, value for value, what existed at the start together with what came into
/// existence on the way.
pub proof fn lemma_every_value_is_released_once(world: World, steps: Seq<Step>)
    requires
        world.run(steps).installed.len() == 0,
        world.run(steps).held.len() == 0,
        world.run(steps).domain.guarded() == Set::<usize>::empty(),
    ensures
        world.run(steps.push(Step::OnDomain(DomainOp::Reclaim))).values() == Multiset::<
            usize,
        >::empty(),
        addresses(
            world.run_released(steps.push(Step::OnDomain(DomainOp::Reclaim))),
        ).to_multiset() == world.values().add(world.run_brings(steps)),
{
    broadcast use vstd::seq_lib::group_to_multiset_ensures;

    let all = steps.push(Step::OnDomain(DomainOp::Reclaim));
    assert(all.drop_last() == steps);
    let end = world.run(steps);
    let done = world.run(all);
    lemma_reclaim_spares_announced(end.domain);
    assert(end.domain.kept().len() == 0) by {
        if end.domain.kept().len() > 0 {
            assert(end.domain.guarded().contains(end.domain.kept()[0].address()));
        }
    }
    assert(done.domain.retired =~= Seq::<Retire>::empty());
    assert(done.installed =~= Seq::<usize>::empty());
    assert(done.held =~= Seq::<usize>::empty());
    lemma_no_addresses();
    assert(done.values() =~= Multiset::<usize>::empty());
    lemma_run_accounts(world, all);
    assert(world.run_brings(all) =~= world.run_brings(steps)) by {
        assert(Seq::<Retire>::empty().to_multiset() =~= Multiset::<Retire>::empty());
    }
    assert(addresses(world.run_released(all)).to_multiset() =~= done.values().add(
        addresses(world.run_released(all)).to_multiset(),
    ));
}

} // verus!
