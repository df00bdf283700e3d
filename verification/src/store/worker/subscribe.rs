//! The subscribe work kind.

use vstd::prelude::*;

verus! {

/// A request to register a subscriber: the payload of the subscribe work
/// kind.
pub struct Subscribe<Sub> {
    pub subscriber: Sub,
}

impl<Sub> Subscribe<Sub> {
    pub fn new(subscriber: Sub) -> (r: Self)
        ensures
            r.subscriber == subscriber,
    {
        Subscribe { subscriber }
    }

    pub fn into_subscriber(self) -> (r: Sub)
        ensures
            r == self.subscriber,
    {
        self.subscriber
    }
}

} // verus!
