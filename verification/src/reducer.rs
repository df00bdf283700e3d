//! The reducer contract: the pure transition function of a store.

use vstd::prelude::*;

verus! {

/// A reducer computes the next state from the current state and an action.
///
/// Reducers are pure: `reduce_spec` is the mathematical description of the
/// transition, and the executable `reduce` must return exactly that value
/// (up to the state's view).
pub trait Reducer<State: View, Action: View>: Sized {
    /// The transition function, stated over the views of state and action.
    spec fn reduce_spec(&self, state: State::V, action: Action::V) -> State::V;

    /// Consume the current state and the action, and produce the next state.
    fn reduce(&self, state: State, action: Action) -> (r: State)
        ensures
            r@ == self.reduce_spec(state@, action@),
    ;
}

/// The state reached by folding a sequence of actions into an initial state
/// with a reducer, first action first.
pub open spec fn apply_actions<State: View, Action: View, R: Reducer<State, Action>>(
    reducer: R,
    init: State::V,
    actions: Seq<Action::V>,
) -> State::V
    decreases actions.len(),
{
    if actions.len() == 0 {
        init
    } else {
        apply_actions(reducer, reducer.reduce_spec(init, actions[0]), actions.skip(1))
    }
}

/// Folding one more action equals reducing the fold of the earlier ones:
/// `apply_actions(r, init, actions + [a]) == r(apply_actions(r, init, actions), a)`.
pub proof fn lemma_apply_actions_push<State: View, Action: View, R: Reducer<State, Action>>(
    reducer: R,
    init: State::V,
    actions: Seq<Action::V>,
    action: Action::V,
)
    ensures
        apply_actions(reducer, init, actions.push(action)) == reducer.reduce_spec(
            apply_actions(reducer, init, actions),
            action,
        ),
    decreases actions.len(),
{
    if actions.len() == 0 {
        assert(actions.push(action)[0] == action);
        assert(actions.push(action).skip(1) =~= Seq::<Action::V>::empty());
        let folded = reducer.reduce_spec(init, action);
        assert(apply_actions(reducer, folded, actions.push(action).skip(1)) == folded);
        assert(apply_actions(reducer, init, actions.push(action)) == apply_actions(
            reducer,
            folded,
            actions.push(action).skip(1),
        ));
        assert(apply_actions(reducer, init, actions) == init);
    } else {
        assert(actions.push(action)[0] == actions[0]);
        assert(actions.push(action).skip(1) =~= actions.skip(1).push(action));
        let folded = reducer.reduce_spec(init, actions[0]);
        lemma_apply_actions_push(reducer, folded, actions.skip(1), action);
        assert(apply_actions(reducer, init, actions.push(action)) == apply_actions(
            reducer,
            folded,
            actions.push(action).skip(1),
        ));
        assert(apply_actions(reducer, init, actions) == apply_actions(
            reducer,
            folded,
            actions.skip(1),
        ));
    }
}

} // verus!
