//! The select work kind.

use vstd::prelude::*;

use crate::selector::Selector;

verus! {

/// A request to project a value out of the current state: the payload of
/// the select work kind.
pub struct Select<State: View, S: Selector<State>> {
    pub selector: S,
    pub _state: core::marker::PhantomData<State>,
}

impl<State: View, S: Selector<State>> Select<State, S> {
    pub fn new(selector: S) -> (r: Self)
        ensures
            r.selector == selector,
    {
        Select { selector, _state: core::marker::PhantomData }
    }

    pub fn into_selector(self) -> (r: S)
        ensures
            r == self.selector,
    {
        self.selector
    }
}

} // verus!
