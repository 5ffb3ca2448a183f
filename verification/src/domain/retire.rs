//! Retired values, and how a reclamation parts them into those to keep and those to
//! release.
use crate::domain::list::List;
use std::collections::HashSet;
use std::sync::Arc;
use vstd::prelude::*;

verus! {

broadcast use vstd::std_specs::hash::group_hash_axioms;

/// Anything a domain can keep until it is safe to release.
pub(crate) trait Retirable: Send + Sync {

}

impl<T: Send + Sync> Retirable for T {

}

/// A value waiting to be released: the address readers announce it under, and the value
/// itself with its type forgotten. Dropping the entry releases the value.
pub struct Retire {
    ptr: usize,
    retirable: Box<dyn Retirable>,
}

impl Retire {
    /// Records `value`, known to readers as `ptr`, for later release.
    pub fn new<T: Send + Sync + 'static>(ptr: usize, value: Arc<T>) -> (entry: Self)
        ensures
            entry.address() == ptr,
    {
        let retirable: Box<dyn Retirable> = Box::new(value);
        Retire { ptr, retirable }
    }

    /// The address the retired value is known under.
    pub closed spec fn spec_address(&self) -> usize {
        self.ptr
    }

    /// The address the retired value is known under.
    #[verifier::when_used_as_spec(spec_address)]
    pub fn address(&self) -> (ptr: usize)
        ensures
            ptr == self.address(),
    {
        self.ptr
    }
}

/// The entries a reader still announces.
pub open spec fn is_guarded(guarded: Set<usize>) -> spec_fn(Retire) -> bool {
    |entry: Retire| guarded.contains(entry.address())
}

/// The entries no reader announces.
pub open spec fn is_unguarded(guarded: Set<usize>) -> spec_fn(Retire) -> bool {
    |entry: Retire| !guarded.contains(entry.address())
}

/// Walks a drained chain from its head and parts it in two: the entries whose address is
/// in `guarded_ptrs` are chained up again, each in front of the ones met before it, and the
/// others are handed out for release, in the order the walk met them.
pub fn split_guarded(guarded_ptrs: &HashSet<usize>, retired_list: List<Retire>) -> (parts: (
    List<Retire>,
    Vec<Retire>,
))
    ensures
        parts.0@ == retired_list.from_head().filter(is_guarded(guarded_ptrs@)),
        parts.1@ == retired_list.from_head().filter(is_unguarded(guarded_ptrs@)),
{
    let mut chain = retired_list;
    let mut still_retired: List<Retire> = List::new();
    let mut reclaimed: Vec<Retire> = Vec::new();
    let ghost all = chain@;
    let ghost keep = is_guarded(guarded_ptrs@);
    let ghost free = is_unguarded(guarded_ptrs@);
    proof {
        reveal(Seq::filter);
        assert(all.subrange(all.len() as int, all.len() as int).reverse() =~= Seq::<
            Retire,
        >::empty());
    }
    while chain.count() > 0
        invariant
            chain@.len() <= all.len(),
            chain@ == all.subrange(0, chain@.len() as int),
            keep == is_guarded(guarded_ptrs@),
            free == is_unguarded(guarded_ptrs@),
            still_retired@ == all.subrange(chain@.len() as int, all.len() as int).reverse().filter(
                keep,
            ),
            reclaimed@ == all.subrange(chain@.len() as int, all.len() as int).reverse().filter(
                free,
            ),
        decreases chain@.len(),
    {
        let ghost before = chain@.len() as int;
        let ghost met = all.subrange(before, all.len() as int).reverse();
        let head = chain.pop_head();
        match head {
            Some(node) => {
                proof {
                    let now_met = all.subrange(before - 1, all.len() as int).reverse();
                    assert(now_met =~= met.push(node));
                    assert(now_met.drop_last() =~= met);
                    reveal(Seq::filter);
                    assert(chain@ =~= all.subrange(0, before - 1));
                }
                if guarded_ptrs.contains(&node.ptr) {
                    still_retired.push(node);
                } else {
                    reclaimed.push(node);
                }
            },
            None => {},
        }
    }
    proof {
        assert(all.subrange(0, all.len() as int) =~= all);
    }
    (still_retired, reclaimed)
}

} // verus!
