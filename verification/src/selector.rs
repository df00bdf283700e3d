//! The selector contract: pure read-only projections of the state.

use vstd::prelude::*;

verus! {

/// A selector projects a read-only view or derived value out of the state.
///
/// Selectors are pure: `select_spec` is the mathematical description of the
/// projection, and the executable `select` must return exactly that value
/// (up to the result's view).
pub trait Selector<State: View>: Sized {
    type Result: View;

    /// The projection, stated over the views of state and result.
    spec fn select_spec(&self, state: State::V) -> <Self::Result as View>::V;

    /// Compute the projection of the given state.
    fn select(&self, state: &State) -> (r: Self::Result)
        ensures
            r@ == self.select_spec(state@),
    ;
}

} // verus!
