//! A shared heap value together with the address readers know it under, and what a cell
//! does with the one it holds: exchange it, or exchange it if it is the expected one.
use std::sync::Arc;
use vstd::prelude::*;

verus! {

/// A value on the heap and its address. Duplicates share the value and the address.
pub struct Pointer<T> {
    address: usize,
    value: Arc<T>,
}

/// The address of the shared allocation, read with `Arc::as_ptr`. Nothing is claimed of
/// the number that comes back.
#[verifier::external_body]
fn address_of<T>(value: &Arc<T>) -> (address: usize) {
    Arc::as_ptr(value) as usize
}

impl<T> Pointer<T> {
    /// The address the value is known under.
    pub closed spec fn spec_address(&self) -> usize {
        self.address
    }

    /// The value pointed to.
    pub closed spec fn value(&self) -> T {
        *self.value
    }

    /// Moves `value` to the heap.
    pub fn new(value: T) -> (ptr: Self)
        ensures
            ptr.value() == value,
    {
        let value = Arc::new(value);
        let address = address_of(&value);
        Pointer { address, value }
    }

    /// The address the value is known under.
    #[verifier::when_used_as_spec(spec_address)]
    pub fn address(&self) -> (address: usize)
        ensures
            address == self.address(),
    {
        self.address
    }

    /// The value pointed to.
    pub fn get(&self) -> (value: &T)
        ensures
            *value == self.value(),
    {
        &*self.value
    }

    /// Another pointer to the same value, under the same address.
    pub fn duplicate(&self) -> (ptr: Self)
        ensures
            ptr == *self,
    {
        Pointer { address: self.address, value: self.value.clone() }
    }

    /// Gives up the pointer for the address and the shared value.
    pub fn into_parts(self) -> (parts: (usize, Arc<T>))
        ensures
            parts.0 == self.address(),
            *parts.1 == self.value(),
    {
        (self.address, self.value)
    }

    /// Whether a compare-and-exchange that expects `current` finds it here.
    pub open spec fn holds(&self, current: usize) -> bool {
        self.address() == current
    }

    /// Installs `new` and hands out what was installed before.
    pub fn swap(&mut self, new: Pointer<T>) -> (previous: Pointer<T>)
        ensures
            *final(self) == new,
            previous == *old(self),
    {
        let mut new = new;
        std::mem::swap(self, &mut new);
        new
    }

    /// The pointer installed after a compare-and-exchange that expects `current` and
    /// offers `new`.
    pub open spec fn exchanged(self, current: usize, new: Pointer<T>) -> Pointer<T> {
        if self.holds(current) {
            new
        } else {
            self
        }
    }

    /// What a compare-and-exchange that expects `current` and offers `new` hands out: on
    /// success the pointer that was installed, on failure that pointer together with `new`.
    pub open spec fn exchange_result(self, current: usize, new: Pointer<T>) -> Result<
        Pointer<T>,
        (Pointer<T>, Pointer<T>),
    > {
        if self.holds(current) {
            Ok(self)
        } else {
            Err((self, new))
        }
    }

    /// Installs `new` if the pointer installed is known under `current`.
    ///
    /// On success the previous pointer is handed out, as by `swap`. On failure nothing
    /// changes, and the caller gets a duplicate of what is installed together with `new`.
    pub fn compare_exchange(&mut self, current: usize, new: Pointer<T>) -> (result: Result<
        Pointer<T>,
        (Pointer<T>, Pointer<T>),
    >)
        ensures
            *final(self) == old(self).exchanged(current, new),
            result == old(self).exchange_result(current, new),
    {
        if self.address == current {
            Ok(self.swap(new))
        } else {
            Err((self.duplicate(), new))
        }
    }
}

/// A compare-and-exchange that succeeds is a swap: the pointer it expected was installed,
/// it leaves installed what the swap leaves, and it hands out what the swap hands out.
pub proof fn lemma_successful_exchange_is_swap<T>(cell: Pointer<T>, current: usize, new: Pointer<T>)
    requires
        cell.exchange_result(current, new) is Ok,
    ensures
        cell.address() == current,
        cell.exchanged(current, new) == new,
        cell.exchange_result(current, new) == Ok::<Pointer<T>, (Pointer<T>, Pointer<T>)>(cell),
{
}

/// A compare-and-exchange that fails changes nothing and hands the offer back.
pub proof fn lemma_failed_exchange_changes_nothing<T>(
    cell: Pointer<T>,
    current: usize,
    new: Pointer<T>,
)
    requires
        cell.exchange_result(current, new) is Err,
    ensures
        cell.address() != current,
        cell.exchanged(current, new) == cell,
        cell.exchange_result(current, new) == Err::<Pointer<T>, (Pointer<T>, Pointer<T>)>(
            (cell, new),
        ),
{
}

/// What one thread does to a cell in one step.
pub enum CellOp<T> {
    /// Installs a pointer.
    Swap(Pointer<T>),
    /// Reads the pointer installed.
    Load,
}

/// The pointer installed at the end of a sequence of steps.
pub open spec fn installed_after<T>(cell: Pointer<T>, ops: Seq<CellOp<T>>) -> Pointer<T>
    decreases ops.len(),
{
    if ops.len() == 0 {
        cell
    } else {
        match ops.last() {
            CellOp::Swap(new) => new,
            CellOp::Load => installed_after(cell, ops.drop_last()),
        }
    }
}

/// The values the loads of a sequence of steps see, in order.
pub open spec fn loaded<T>(cell: Pointer<T>, ops: Seq<CellOp<T>>) -> Seq<T>
    decreases ops.len(),
{
    if ops.len() == 0 {
        Seq::empty()
    } else {
        match ops.last() {
            CellOp::Swap(_) => loaded(cell, ops.drop_last()),
            CellOp::Load => loaded(cell, ops.drop_last()).push(
                installed_after(cell, ops.drop_last()).value(),
            ),
        }
    }
}

/// Whether no swap of the sequence installs a value that ranks below the one it replaces.
pub open spec fn never_steps_down<T>(
    cell: Pointer<T>,
    ops: Seq<CellOp<T>>,
    rank: spec_fn(T) -> int,
) -> bool
    decreases ops.len(),
{
    if ops.len() == 0 {
        true
    } else {
        &&& never_steps_down(cell, ops.drop_last(), rank)
        &&& match ops.last() {
            CellOp::Swap(new) => rank(installed_after(cell, ops.drop_last()).value()) <= rank(
                new.value(),
            ),
            CellOp::Load => true,
        }
    }
}

/// One thread that swaps in values of never decreasing rank, and loads in between, sees
/// values of never decreasing rank: none ranks above the value installed at the end, and
/// none ranks below one seen before it.
pub proof fn lemma_loads_never_decrease<T>(
    cell: Pointer<T>,
    ops: Seq<CellOp<T>>,
    rank: spec_fn(T) -> int,
)
    requires
        never_steps_down(cell, ops, rank),
    ensures
        forall|i: int|
            0 <= i < loaded(cell, ops).len() ==> {
                &&& rank(cell.value()) <= rank(#[trigger] loaded(cell, ops)[i])
                &&& rank(loaded(cell, ops)[i]) <= rank(installed_after(cell, ops).value())
            },
        forall|i: int, j: int|
            0 <= i <= j < loaded(cell, ops).len() ==> rank(#[trigger] loaded(cell, ops)[i])
                <= rank(#[trigger] loaded(cell, ops)[j]),
        rank(cell.value()) <= rank(installed_after(cell, ops).value()),
    decreases ops.len(),
{
    if ops.len() > 0 {
        let before = ops.drop_last();
        lemma_loads_never_decrease(cell, before, rank);
        let seen = loaded(cell, before);
        match ops.last() {
            CellOp::Swap(new) => {
                assert(loaded(cell, ops) == seen);
            },
            CellOp::Load => {
                let value = installed_after(cell, before).value();
                assert(loaded(cell, ops) == seen.push(value));
                assert forall|i: int| 0 <= i < loaded(cell, ops).len() implies {
                    &&& rank(cell.value()) <= rank(#[trigger] loaded(cell, ops)[i])
                    &&& rank(loaded(cell, ops)[i]) <= rank(installed_after(cell, ops).value())
                } by {
                    if i < seen.len() {
                        assert(loaded(cell, ops)[i] == seen[i]);
                    }
                }
                assert forall|i: int, j: int| 0 <= i <= j < loaded(cell, ops).len() implies rank(
                    #[trigger] loaded(cell, ops)[i],
                ) <= rank(#[trigger] loaded(cell, ops)[j]) by {
                    if i < seen.len() {
                        assert(loaded(cell, ops)[i] == seen[i]);
                    }
                    if j < seen.len() {
                        assert(loaded(cell, ops)[j] == seen[j]);
                    }
                }
            },
        }
    }
}

} // verus!
