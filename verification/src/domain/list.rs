//! A head-push list.
//!
//! Nodes are only ever added at the head; they leave either one by one from the head or
//! all at once when the list is drained. The view lists the nodes in the order they were
//! pushed, so the head is the last element of the view and a node keeps its index for as
//! long as it stays in the list.
use vstd::prelude::*;

verus! {

/// A list that grows at its head.
pub struct List<T> {
    nodes: Vec<T>,
}

impl<T> View for List<T> {
    type V = Seq<T>;

    closed spec fn view(&self) -> Seq<T> {
        self.nodes@
    }
}

impl<T> List<T> {
    /// The nodes as a walk from the head meets them: newest first.
    pub open spec fn from_head(&self) -> Seq<T> {
        self@.reverse()
    }

    /// An empty list.
    pub fn new() -> (list: Self)
        ensures
            list@ == Seq::<T>::empty(),
    {
        List { nodes: Vec::new() }
    }

    /// Makes `value` the new head and returns the index it will keep.
    pub fn push(&mut self, value: T) -> (index: usize)
        ensures
            final(self)@ == old(self)@.push(value),
            index == old(self)@.len(),
    {
        let index = self.nodes.len();
        self.nodes.push(value);
        index
    }

    /// Splices a whole chain in front of the head: the head of `chain` becomes the head of
    /// the list and the old head follows the tail of `chain`.
    pub fn push_all(&mut self, chain: List<T>)
        ensures
            final(self)@ == old(self)@ + chain@,
    {
        let mut chain = chain;
        self.nodes.append(&mut chain.nodes);
    }

    /// Takes every node out at once, leaving the list empty.
    pub fn drain(&mut self) -> (chain: List<T>)
        ensures
            chain@ == old(self)@,
            final(self)@ == Seq::<T>::empty(),
    {
        let mut chain = List { nodes: Vec::new() };
        chain.nodes.append(&mut self.nodes);
        chain
    }

    /// Unlinks the head, if there is one.
    pub fn pop_head(&mut self) -> (head: Option<T>)
        ensures
            old(self)@.len() == 0 ==> head is None && final(self)@ == old(self)@,
            old(self)@.len() > 0 ==> head == Some(old(self)@.last()) && final(self)@ == old(
                self,
            )@.drop_last(),
    {
        self.nodes.pop()
    }

    /// The number of nodes.
    pub fn count(&self) -> (count: usize)
        ensures
            count == self@.len(),
    {
        self.nodes.len()
    }

    /// The node at the head.
    pub fn head(&self) -> (head: Option<&T>)
        ensures
            self@.len() == 0 ==> head is None,
            self@.len() > 0 ==> head == Some(&self@.last()),
    {
        let count = self.nodes.len();
        if count == 0 {
            None
        } else {
            Some(&self.nodes[count - 1])
        }
    }

    /// The node that was pushed as the `index`-th.
    pub fn get(&self, index: usize) -> (node: &T)
        requires
            index < self@.len(),
        ensures
            *node == self@[index as int],
    {
        &self.nodes[index]
    }

    /// Overwrites the node that was pushed as the `index`-th.
    pub fn set(&mut self, index: usize, value: T)
        requires
            index < old(self)@.len(),
        ensures
            final(self)@ == old(self)@.update(index as int, value),
    {
        self.nodes[index] = value;
    }

    /// The nodes in the order a walk from the head meets them.
    pub fn iter(&self) -> (walk: Vec<&T>)
        ensures
            walk@.len() == self@.len(),
            forall|i: int| 0 <= i < walk@.len() ==> *#[trigger] walk@[i] == self.from_head()[i],
    {
        let mut walk: Vec<&T> = Vec::new();
        let mut left: usize = self.nodes.len();
        while left > 0
            invariant
                left <= self.nodes@.len(),
                walk@.len() == self.nodes@.len() - left,
                forall|i: int|
                    0 <= i < walk@.len() ==> *#[trigger] walk@[i] == self.nodes@[self.nodes@.len()
                        - 1 - i],
            decreases left,
        {
            left = left - 1;
            walk.push(&self.nodes[left]);
        }
        walk
    }
}

} // verus!
