//! The dispatch work kind.

use vstd::prelude::*;

verus! {

/// A request to apply one action to the state: the payload of the
/// dispatch work kind.
pub struct Dispatch<Action> {
    pub action: Action,
}

impl<Action> Dispatch<Action> {
    pub fn new(action: Action) -> (r: Self)
        ensures
            r.action == action,
    {
        Dispatch { action }
    }

    pub fn into_action(self) -> (r: Action)
        ensures
            r == self.action,
    {
        self.action
    }
}

} // verus!
