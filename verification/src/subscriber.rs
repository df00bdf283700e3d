//! The subscriber contract: callbacks notified after every transition.

use vstd::prelude::*;

verus! {

/// A subscriber is notified with the new state after every applied dispatch.
///
/// `observed` is the (ghost) sequence of state views the subscriber has been
/// notified with so far, oldest first; `notify` must extend it by exactly the
/// state it was called with.
pub trait Subscriber<State: View>: Sized {
    /// The views of all states this subscriber has been notified with.
    spec fn observed(&self) -> Seq<State::V>;

    /// Deliver one notification with a read-only view of the new state.
    fn notify(&mut self, state: &State)
        ensures
            final(self).observed() == old(self).observed().push(state@),
    ;
}

/// A subscriber that reacts to nothing: it only records, in ghost state, the
/// sequence of notifications it received.
pub struct SilentSubscriber<State: View> {
    pub history: Ghost<Seq<State::V>>,
}

impl<State: View> SilentSubscriber<State> {
    /// A silent subscriber with an empty notification history.
    pub fn new() -> (r: Self)
        ensures
            r.observed() == Seq::<State::V>::empty(),
    {
        SilentSubscriber { history: Ghost(Seq::empty()) }
    }
}

impl<State: View> Subscriber<State> for SilentSubscriber<State> {
    open spec fn observed(&self) -> Seq<State::V> {
        self.history@
    }

    fn notify(&mut self, state: &State) {
        self.history = Ghost(self.history@.push(state@));
    }
}

} // verus!
