//! The worker's mailbox: an ordered queue of pending work.

use vstd::prelude::*;

verus! {

/// The ordered queue of pending work items consumed by the worker.
///
/// Sending appends at the back and receiving removes from the front, so
/// items leave the mailbox strictly in the order they were sent: first in,
/// first out, no reordering and no priority.
pub struct Mailbox<T> {
    pub queue: Vec<T>,
}

impl<T> Mailbox<T> {
    /// An empty mailbox.
    pub fn new() -> (r: Self)
        ensures
            r@ == Seq::<T>::empty(),
    {
        Mailbox { queue: Vec::new() }
    }

    /// Enqueue one work item behind all items sent before it.
    pub fn send(&mut self, item: T)
        ensures
            final(self)@ == old(self)@.push(item),
    {
        self.queue.push(item);
    }

    /// Dequeue the oldest pending work item, or `None` when the mailbox is
    /// empty.
    pub fn recv(&mut self) -> (r: Option<T>)
        ensures
            old(self)@.len() == 0 ==> r is None && final(self)@ == old(self)@,
            old(self)@.len() > 0 ==> r == Some(old(self)@[0]) && final(self)@ == old(self)@.skip(
                1,
            ),
    {
        if self.queue.len() == 0 {
            None
        } else {
            let item = self.queue.remove(0);
            proof {
                assert(self@ =~= old(self)@.skip(1));
            }
            Some(item)
        }
    }

    /// The number of pending work items.
    pub fn len(&self) -> (r: usize)
        ensures
            r == self@.len(),
    {
        self.queue.len()
    }
}

impl<T> View for Mailbox<T> {
    type V = Seq<T>;

    open spec fn view(&self) -> Seq<T> {
        self.queue@
    }
}

} // verus!
