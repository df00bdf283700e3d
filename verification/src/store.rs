//! The store: the public handle over the state worker.

use vstd::prelude::*;

mod worker;

pub use worker::actions_of;
pub use worker::dispatch_states;
pub use worker::lemma_dispatch_states_len;
pub use worker::lemma_read_your_writes;
pub use worker::lemma_run_observed_existing;
pub use worker::lemma_run_state_is_fold;
pub use worker::lemma_select_idempotent;
pub use worker::lemma_subscribe_then_notifications;
pub use worker::observed_of;
pub use worker::run_observed;
pub use worker::run_results;
pub use worker::run_state;
pub use worker::views_of;
pub use worker::Dispatch;
pub use worker::Mailbox;
pub use worker::Select;
pub use worker::StateWorker;
pub use worker::Subscribe;
pub use worker::Work;

use crate::middleware::batch_dispatched;
use crate::middleware::cloned_view;
use crate::middleware::MiddleWare;
use crate::middleware::StoreApi;
use crate::middleware::StoreWithMiddleware;
use crate::reducer::Reducer;
use crate::selector::Selector;
use crate::subscriber::Subscriber;

verus! {

/// A store's state is always the fold of every action dispatched since its
/// construction (or its last reducer change), applied in dispatch order to
/// the state it had then: sequential application, with no step skipped or
/// duplicated.
pub proof fn lemma_store_state_is_fold<
    State: View,
    Action: View,
    R: Reducer<State, Action>,
    Sub: Subscriber<State>,
>(store: Store<State, Action, R, Sub>)
    requires
        store.inv(),
    ensures
        store.state_model() == crate::reducer::apply_actions(
            store.worker.root_reducer,
            store.worker.init_state@,
            store.action_log(),
        ),
{
}

/// A container holding one state value and dispatching actions against it
/// through a reducer, with subscribers notified after every transition.
///
/// All operations go through the owned state worker, one at a time, in
/// call order: this is the serialized heart that a concurrent front can
/// safely funnel requests into.
pub struct Store<State: View, Action: View, R: Reducer<State, Action>, Sub: Subscriber<State>> {
    pub worker: StateWorker<State, Action, R, Sub>,
}

impl<State: View, Action: View, R: Reducer<State, Action>, Sub: Subscriber<State>> Store<
    State,
    Action,
    R,
    Sub,
> {
    /// A store over the default state.
    pub fn new(root_reducer: R) -> (r: Self) where State: Default
        ensures
            r.inv(),
            r.worker.root_reducer == root_reducer,
            exists|s: State|
                call_ensures(State::default, (), s) && r.state_model() == s@,
            r.action_log() == Seq::<Action::V>::empty(),
            r.subscriber_models() == Seq::<Seq<State::V>>::empty(),
    {
        Self::new_with_state(root_reducer, Default::default())
    }

    /// A store over the given initial state.
    pub fn new_with_state(root_reducer: R, state: State) -> (r: Self)
        ensures
            r.inv(),
            r.worker.root_reducer == root_reducer,
            r.state_model() == state@,
            r.action_log() == Seq::<Action::V>::empty(),
            r.subscriber_models() == Seq::<Seq<State::V>>::empty(),
    {
        let r = Store { worker: StateWorker::new(root_reducer, state) };
        proof {
            assert(r.subscriber_models() =~= Seq::<Seq<State::V>>::empty());
        }
        r
    }

    /// Dispatch one action: the reducer computes the next state and every
    /// registered subscriber is notified with it before the call returns.
    pub fn dispatch(&mut self, action: Action)
        requires
            old(self).inv(),
        ensures
            final(self).inv(),
            final(self).worker.root_reducer == old(self).worker.root_reducer,
            final(self).state_model() == old(self).worker.root_reducer.reduce_spec(
                old(self).state_model(),
                action@,
            ),
            final(self).action_log() == old(self).action_log().push(action@),
            final(self).subscriber_models() == old(self).subscriber_models().map_values(
                |o: Seq<State::V>| o.push(final(self).state_model()),
            ),
    {
        self.worker.handle_dispatch(Dispatch::new(action));
    }

    /// A reference to the current state.
    pub fn state(&self) -> (r: &State)
        requires
            self.inv(),
        ensures
            r@ == self.state_model(),
    {
        self.worker.state.as_ref().unwrap()
    }

    /// Replace the reducer used for all dispatches from now on; the state
    /// and the subscribers are untouched. The recorded dispatch history
    /// starts over from the current state.
    pub fn replace_reducer(&mut self, root_reducer: R)
        requires
            old(self).inv(),
        ensures
            final(self).inv(),
            final(self).worker.root_reducer == root_reducer,
            final(self).state_model() == old(self).state_model(),
            final(self).subscriber_models() == old(self).subscriber_models(),
            final(self).action_log() == Seq::<Action::V>::empty(),
    {
        self.worker.root_reducer = root_reducer;
        self.worker.init_state = Ghost(self.worker.state_view());
        self.worker.history = Ghost(Seq::empty());
    }

    /// Wrap this store with a middleware layer; the layer intercepts every
    /// later dispatch before it reaches the reducer.
    pub fn wrap<M, OuterAction>(self, middleware: M) -> (r: StoreWithMiddleware<
        Self,
        M,
        State,
        Action,
        OuterAction,
        Sub,
    >) where
        OuterAction: View,
        M: MiddleWare<State, OuterAction, Self, Action, Sub>,
        requires
            self.inv(),
        ensures
            r.inv(),
            batch_dispatched(self, r.inner, middleware.seeds()),
            r.outer_log@ == Seq::<OuterAction::V>::empty(),
            r.middleware.seeds() == middleware.seeds(),
            forall|a: OuterAction::V| #[trigger] r.middleware.forwards(a) == middleware.forwards(
                a,
            ),
            forall|i: Self, a: OuterAction::V| #[trigger] r.middleware.trace_of(i, a)
                == middleware.trace_of(i, a),
    {
        StoreWithMiddleware::new(self, middleware)
    }
}

impl<State: View, Action: View, R: Reducer<State, Action>, Sub: Subscriber<State>> StoreApi<
    State,
    Action,
    Sub,
> for Store<State, Action, R, Sub> {
    open spec fn inv(&self) -> bool {
        self.worker.wf()
    }

    open spec fn state_model(&self) -> State::V {
        self.worker.state_view()
    }

    open spec fn action_log(&self) -> Seq<Action::V> {
        self.worker.history@
    }

    open spec fn transition(&self, state: State::V, action: Action::V) -> State::V {
        self.worker.root_reducer.reduce_spec(state, action)
    }

    open spec fn notify_states(&self, state: State::V, action: Action::V) -> Seq<State::V> {
        seq![self.worker.root_reducer.reduce_spec(state, action)]
    }

    open spec fn trace_model(&self, action: Action::V) -> Seq<Seq<char>> {
        Seq::empty()
    }

    open spec fn subscriber_models(&self) -> Seq<Seq<State::V>> {
        self.worker.observed()
    }

    fn dispatch(&mut self, action: Action, trace: &mut Vec<String>) {
        let ghost action_view = action@;
        self.dispatch(action);
        proof {
            assert(views_of(trace@) =~= views_of(trace@) + self.trace_model(action_view));
            assert(self.subscriber_models() =~~= old(self).subscriber_models().map_values(
                |o: Seq<State::V>| o + old(self).notify_states(old(self).state_model(), action_view),
            ));
        }
    }

    fn select<Sel: Selector<State>>(&self, selector: Sel) -> (r: Sel::Result) {
        self.worker.handle_select(Select::new(selector))
    }

    fn state_cloned(&self) -> (r: State) where State: Clone {
        let state = self.worker.state.as_ref().unwrap();
        let ghost witness = *state;
        let r = state.clone();
        proof {
            assert(witness@ == self.state_model() && vstd::pervasive::cloned::<State>(witness, r));
        }
        r
    }

    fn subscribe(&mut self, subscriber: Sub)
        ensures
            final(self).worker.root_reducer == old(self).worker.root_reducer,
    {
        let ghost observed = subscriber.observed();
        self.worker.handle_subscribe(Subscribe::new(subscriber));
        proof {
            assert(self.subscriber_models() =~= old(self).subscriber_models().push(observed));
        }
    }
}

} // verus!
