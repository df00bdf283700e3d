//! A middleware that lets deferred units of work travel the dispatch
//! path, to be executed independently of the dispatch that delivered
//! them.

use vstd::prelude::*;

use crate::middleware::batch_dispatched;
use crate::middleware::chain_notify;
use crate::middleware::chain_state;
use crate::middleware::chain_trace;
use crate::middleware::forwarded_batch;
use crate::middleware::lemma_batch_dispatched_concat;
use crate::middleware::lemma_batch_dispatched_empty;
use crate::middleware::lemma_batch_dispatched_single;
use crate::middleware::lemma_chain_notify_congruence;
use crate::middleware::lemma_chain_state_congruence;
use crate::middleware::lemma_chain_trace_append;
use crate::middleware::lemma_chain_trace_congruence;
use crate::middleware::lemma_forwarded_batch_congruence;
use crate::middleware::lemma_forwarded_batch_push;
use crate::middleware::MiddleWare;
use crate::middleware::StoreApi;
use crate::middleware::StoreWithMiddleware;
use crate::reducer::Reducer;
use crate::selector::Selector;
use crate::store::views_of;
use crate::subscriber::Subscriber;
use vstd::string::StringExecFns;

verus! {

/// A deferred, independently schedulable unit of work that dispatches
/// further actions into the store when it is executed.
///
/// `effect` is the sequence of actions one execution dispatches; the
/// executable `execute` must dispatch exactly those, in order.
pub trait Thunk<State: View, Action: View, Api, Sub>: Sized where
    Sub: Subscriber<State>,
    Api: StoreApi<State, Action, Sub>,
{
    /// The actions one execution of this unit dispatches, in order.
    spec fn effect(&self) -> Seq<Action::V>;

    /// Run the deferred work against the store interface.
    fn execute(&self, store_api: &mut Api, trace: &mut Vec<String>)
        requires
            old(store_api).inv(),
        ensures
            batch_dispatched(*old(store_api), *final(store_api), self.effect()),
            views_of(final(trace)@) == views_of(old(trace)@) + chain_trace(
                *old(store_api),
                self.effect(),
            ),
    ;
}

/// Either a plain action, forwarded at once, or a deferred unit of work,
/// held back to be run independently of the dispatch that delivered it.
pub enum ActionOrThunk<Action, T> {
    Action(Action),
    Thunk(T),
}

/// The view of an `ActionOrThunk`: the action's view, or the mark of a
/// deferred unit.
pub enum ActionOrThunkView<AV> {
    Action(AV),
    Thunk,
}

impl<Action: View, T> View for ActionOrThunk<Action, T> {
    type V = ActionOrThunkView<Action::V>;

    open spec fn view(&self) -> ActionOrThunkView<Action::V> {
        match self {
            ActionOrThunk::Action(a) => ActionOrThunkView::Action(a@),
            ActionOrThunk::Thunk(_) => ActionOrThunkView::Thunk,
        }
    }
}

/// A middleware that lets deferred work travel the dispatch path: plain
/// actions are forwarded immediately and unchanged; deferred units are
/// held in `pending`, to be executed later, decoupled from the dispatch
/// that delivered them.
pub struct ThunkMiddleware<T> {
    pub pending: Vec<T>,
}

impl<T> ThunkMiddleware<T> {
    /// A thunk middleware with no deferred work pending.
    pub fn new() -> (r: Self)
        ensures
            r.pending@ == Seq::<T>::empty(),
    {
        ThunkMiddleware { pending: Vec::new() }
    }

    /// Hand out the deferred units accumulated so far, oldest first,
    /// leaving none pending. To execute them against a wrapped store, go
    /// through the wrapper's `run_pending`, which keeps the wrapper's
    /// bookkeeping intact.
    pub fn take_pending(&mut self) -> (r: Vec<T>)
        ensures
            r@ == old(self).pending@,
            final(self).pending@ == Seq::<T>::empty(),
    {
        let mut taken: Vec<T> = Vec::new();
        core::mem::swap(&mut self.pending, &mut taken);
        taken
    }
}

impl<State, Action, Inner, Sub, T> MiddleWare<
    State,
    ActionOrThunk<Action, T>,
    Inner,
    Action,
    Sub,
> for ThunkMiddleware<T> where
    State: View,
    Action: View,
    Sub: Subscriber<State>,
    Inner: StoreApi<State, Action, Sub>,
    T: Thunk<State, Action, Inner, Sub>,
{
    /// A plain action is forwarded as itself; a deferred unit forwards
    /// nothing at dispatch time.
    open spec fn forwards(&self, action: ActionOrThunkView<Action::V>) -> Seq<Action::V> {
        match action {
            ActionOrThunkView::Action(a) => seq![a],
            ActionOrThunkView::Thunk => Seq::empty(),
        }
    }

    /// The middleware writes no lines of its own: a plain action traces
    /// whatever the inner store traces, a deferred unit traces nothing.
    open spec fn trace_of(&self, inner: Inner, action: ActionOrThunkView<Action::V>) -> Seq<
        Seq<char>,
    > {
        match action {
            ActionOrThunkView::Action(a) => inner.trace_model(a),
            ActionOrThunkView::Thunk => Seq::empty(),
        }
    }

    /// Nothing is seeded at wrap time.
    open spec fn seeds(&self) -> Seq<Action::V> {
        Seq::empty()
    }

    proof fn trace_of_congruence(&self, i1: Inner, i2: Inner, action: ActionOrThunkView<Action::V>) {
        match action {
            ActionOrThunkView::Action(a) => {
                assert(i1.trace_model(a) == i2.trace_model(a));
            },
            ActionOrThunkView::Thunk => {},
        }
    }

    fn init(&mut self, inner: &mut Inner)
        ensures
            final(self).pending@ == old(self).pending@,
    {
        proof {
            lemma_batch_dispatched_empty(*inner);
        }
    }

    fn dispatch(
        &mut self,
        action: ActionOrThunk<Action, T>,
        inner: &mut Inner,
        trace: &mut Vec<String>,
    )
        ensures
            (action matches ActionOrThunk::Thunk(t) ==> final(self).pending@ == old(
                self,
            ).pending@.push(t)),
            (action matches ActionOrThunk::Action(a) ==> final(self).pending@ == old(
                self,
            ).pending@),
    {
        let ghost action_view = action@;
        let ghost pre_inner = *inner;
        match action {
            ActionOrThunk::Action(a) => {
                let ghost a_view = a@;
                inner.dispatch(a, trace);
                proof {
                    lemma_batch_dispatched_single(pre_inner, *inner, a_view);
                }
            },
            ActionOrThunk::Thunk(t) => {
                self.pending.push(t);
                proof {
                    lemma_batch_dispatched_empty(*inner);
                    assert(views_of(trace@) =~= views_of(trace@) + self.trace_of(
                        pre_inner,
                        action_view,
                    ));
                }
            },
        }
    }
}

/// The actions dispatched when a sequence of deferred units is executed,
/// one unit after the other, oldest first.
pub open spec fn effects_of<State, Action, Api, Sub, T>(units: Seq<T>) -> Seq<Action::V> where
    State: View,
    Action: View,
    Sub: Subscriber<State>,
    Api: StoreApi<State, Action, Sub>,
    T: Thunk<State, Action, Api, Sub>,

    decreases units.len(),
{
    if units.len() == 0 {
        Seq::empty()
    } else {
        units[0].effect() + effects_of::<State, Action, Api, Sub, T>(units.skip(1))
    }
}

/// Executing one more deferred unit appends exactly its effect.
pub proof fn lemma_effects_of_push<State, Action, Api, Sub, T>(units: Seq<T>, unit: T) where
    State: View,
    Action: View,
    Sub: Subscriber<State>,
    Api: StoreApi<State, Action, Sub>,
    T: Thunk<State, Action, Api, Sub>,

    ensures
        effects_of::<State, Action, Api, Sub, T>(units.push(unit)) == effects_of::<
            State,
            Action,
            Api,
            Sub,
            T,
        >(units) + unit.effect(),
    decreases units.len(),
{
    if units.len() == 0 {
        assert(units.push(unit)[0] == unit);
        assert(units.push(unit).skip(1) =~= Seq::<T>::empty());
        assert(effects_of::<State, Action, Api, Sub, T>(Seq::<T>::empty()) == Seq::<
            Action::V,
        >::empty());
        assert(effects_of::<State, Action, Api, Sub, T>(units.push(unit)) =~= unit.effect());
        assert(effects_of::<State, Action, Api, Sub, T>(units) + unit.effect() =~= unit.effect());
    } else {
        assert(units.push(unit)[0] == units[0]);
        assert(units.push(unit).skip(1) =~= units.skip(1).push(unit));
        lemma_effects_of_push::<State, Action, Api, Sub, T>(units.skip(1), unit);
        assert(units[0].effect() + (effects_of::<State, Action, Api, Sub, T>(units.skip(1))
            + unit.effect()) =~= (units[0].effect() + effects_of::<State, Action, Api, Sub, T>(
            units.skip(1),
        )) + unit.effect());
    }
}

impl<State, Action, Inner, Sub, T> StoreWithMiddleware<
    Inner,
    ThunkMiddleware<T>,
    State,
    Action,
    ActionOrThunk<Action, T>,
    Sub,
> where
    State: View,
    Action: View,
    Sub: Subscriber<State>,
    Inner: StoreApi<State, Action, Sub>,
    T: Thunk<State, Action, Inner, Sub>,
{
    /// Wrap a store with a fresh deferred-work layer: nothing is seeded
    /// into the store, and no deferred work is pending yet.
    ///
    /// Unlike the generic `wrap`, this constructor also pins down the
    /// layer's own state, so callers can follow the pending queue from
    /// empty through every later dispatch.
    pub fn wrap_deferred(inner: Inner) -> (r: Self)
        requires
            inner.inv(),
        ensures
            r.inv(),
            r.inner == inner,
            r.middleware.pending@ == Seq::<T>::empty(),
            r.outer_log@ == Seq::<ActionOrThunkView<Action::V>>::empty(),
    {
        let ghost base = inner.action_log();
        let r = StoreWithMiddleware {
            inner,
            middleware: ThunkMiddleware::new(),
            outer_log: Ghost(Seq::empty()),
            base_log: Ghost(base),
            _types: core::marker::PhantomData,
        };
        proof {
            assert(forwarded_batch(r.middleware, r.outer_log@) == Seq::<Action::V>::empty());
            assert(r.inner.action_log() =~= r.base_log@ + forwarded_batch(
                r.middleware,
                r.outer_log@,
            ));
        }
        r
    }

    /// Dispatch through the deferred-work layer, with the layer's own
    /// bookkeeping pinned down: a plain action is forwarded to the inner
    /// store at once and the pending queue is untouched; a deferred unit
    /// is retained — appended to the pending queue, forwarding nothing —
    /// until the runtime executes it through `run_pending`.
    pub fn dispatch(&mut self, action: ActionOrThunk<Action, T>, trace: &mut Vec<String>)
        requires
            old(self).inv(),
        ensures
            final(self).inv(),
            final(self).state_model() == old(self).transition(old(self).state_model(), action@),
            final(self).action_log() == old(self).action_log().push(action@),
            final(self).subscriber_models() == old(self).subscriber_models().map_values(
                |o: Seq<State::V>| o + old(self).notify_states(old(self).state_model(), action@),
            ),
            views_of(final(trace)@) == views_of(old(trace)@) + old(self).trace_model(action@),
            forall|s: State::V, a: ActionOrThunkView<Action::V>| #[trigger]
                final(self).transition(s, a) == old(self).transition(s, a),
            forall|s: State::V, a: ActionOrThunkView<Action::V>| #[trigger]
                final(self).notify_states(s, a) == old(self).notify_states(s, a),
            forall|a: ActionOrThunkView<Action::V>| #[trigger]
                final(self).trace_model(a) == old(self).trace_model(a),
            (action matches ActionOrThunk::Thunk(t) ==> final(self).middleware.pending@ == old(
                self,
            ).middleware.pending@.push(t)),
            (action matches ActionOrThunk::Action(a) ==> final(self).middleware.pending@ == old(
                self,
            ).middleware.pending@),
    {
        let ghost action_view = action@;
        let ghost pre_inner = self.inner;
        let ghost pre_middleware = self.middleware;
        match action {
            ActionOrThunk::Action(a) => {
                let ghost a_view = a@;
                self.inner.dispatch(a, trace);
                proof {
                    lemma_batch_dispatched_single(pre_inner, self.inner, a_view);
                }
            },
            ActionOrThunk::Thunk(t) => {
                self.middleware.pending.push(t);
                proof {
                    lemma_batch_dispatched_empty(self.inner);
                    assert(views_of(trace@) =~= views_of(trace@) + pre_middleware.trace_of(
                        pre_inner,
                        action_view,
                    ));
                }
            },
        }
        self.outer_log = Ghost(self.outer_log@.push(action_view));
        proof {
            assert forall|a: ActionOrThunkView<Action::V>| #[trigger]
                self.middleware.forwards(a) == pre_middleware.forwards(a) by {}
            lemma_forwarded_batch_congruence(
                self.middleware,
                pre_middleware,
                old(self).outer_log@,
            );
            lemma_forwarded_batch_push(self.middleware, old(self).outer_log@, action_view);
            assert(self.inner.action_log() =~= self.base_log@ + forwarded_batch(
                self.middleware,
                self.outer_log@,
            ));
            assert forall|s: State::V, a: ActionOrThunkView<Action::V>| #[trigger]
                self.transition(s, a) == old(self).transition(s, a) by {
                lemma_chain_state_congruence(
                    self.inner,
                    pre_inner,
                    s,
                    self.middleware.forwards(a),
                );
            }
            assert forall|s: State::V, a: ActionOrThunkView<Action::V>| #[trigger]
                self.notify_states(s, a) == old(self).notify_states(s, a) by {
                lemma_chain_notify_congruence(
                    self.inner,
                    pre_inner,
                    s,
                    self.middleware.forwards(a),
                );
            }
            assert forall|a: ActionOrThunkView<Action::V>| #[trigger]
                self.trace_model(a) == old(self).trace_model(a) by {
                self.middleware.trace_of_congruence(self.inner, pre_inner, a);
            }
        }
    }

    /// Execute every deferred unit put aside so far, oldest first, against
    /// the wrapped store: each unit's effect is dispatched as if the
    /// runtime had sent it from outside the middleware chain. The pending
    /// queue is left empty, the wrapper's invariant holds again, and its
    /// recorded outer history starts over with the deferred work folded
    /// in.
    pub fn run_pending(&mut self, trace: &mut Vec<String>)
        requires
            old(self).inv(),
        ensures
            final(self).inv(),
            final(self).middleware.pending@ == Seq::<T>::empty(),
            batch_dispatched(
                old(self).inner,
                final(self).inner,
                effects_of::<State, Action, Inner, Sub, T>(old(self).middleware.pending@),
            ),
            final(self).state_model() == chain_state(
                old(self).inner,
                old(self).state_model(),
                effects_of::<State, Action, Inner, Sub, T>(old(self).middleware.pending@),
            ),
            final(self).subscriber_models() == old(self).subscriber_models().map_values(
                |o: Seq<State::V>| o + chain_notify(
                    old(self).inner,
                    old(self).state_model(),
                    effects_of::<State, Action, Inner, Sub, T>(old(self).middleware.pending@),
                ),
            ),
            views_of(final(trace)@) == views_of(old(trace)@) + chain_trace(
                old(self).inner,
                effects_of::<State, Action, Inner, Sub, T>(old(self).middleware.pending@),
            ),
            final(self).action_log() == Seq::<ActionOrThunkView<Action::V>>::empty(),
            forall|s: State::V, a: ActionOrThunkView<Action::V>| #[trigger]
                final(self).transition(s, a) == old(self).transition(s, a),
            forall|s: State::V, a: ActionOrThunkView<Action::V>| #[trigger]
                final(self).notify_states(s, a) == old(self).notify_states(s, a),
            forall|a: ActionOrThunkView<Action::V>| #[trigger]
                final(self).trace_model(a) == old(self).trace_model(a),
    {
        let units = self.middleware.take_pending();
        let ghost pre_inner = self.inner;
        let ghost trace0 = views_of(trace@);
        proof {
            assert(units@.take(0) =~= Seq::<T>::empty());
            assert(effects_of::<State, Action, Inner, Sub, T>(Seq::<T>::empty()) == Seq::<
                Action::V,
            >::empty());
            lemma_batch_dispatched_empty(self.inner);
            assert(chain_trace(pre_inner, Seq::<Action::V>::empty()) == Seq::<Seq<char>>::empty());
            assert(trace0 + Seq::<Seq<char>>::empty() =~= trace0);
        }
        let mut i: usize = 0;
        while i < units.len()
            invariant
                i <= units.len(),
                self.middleware.pending@ == Seq::<T>::empty(),
                self.outer_log == old(self).outer_log,
                self.base_log == old(self).base_log,
                batch_dispatched(
                    pre_inner,
                    self.inner,
                    effects_of::<State, Action, Inner, Sub, T>(units@.take(i as int)),
                ),
                views_of(trace@) == trace0 + chain_trace(
                    pre_inner,
                    effects_of::<State, Action, Inner, Sub, T>(units@.take(i as int)),
                ),
            decreases units.len() - i,
        {
            let ghost done = effects_of::<State, Action, Inner, Sub, T>(units@.take(i as int));
            let ghost pre_step = self.inner;
            units[i].execute(&mut self.inner, trace);
            proof {
                lemma_batch_dispatched_concat(
                    pre_inner,
                    pre_step,
                    self.inner,
                    done,
                    units@[i as int].effect(),
                );
                lemma_effects_of_push::<State, Action, Inner, Sub, T>(
                    units@.take(i as int),
                    units@[i as int],
                );
                assert(units@.take(i as int).push(units@[i as int]) =~= units@.take(i + 1));
                lemma_chain_trace_congruence(pre_step, pre_inner, units@[i as int].effect());
                lemma_chain_trace_append(pre_inner, done, units@[i as int].effect());
                assert(views_of(trace@) =~= trace0 + chain_trace(
                    pre_inner,
                    effects_of::<State, Action, Inner, Sub, T>(units@.take(i + 1)),
                ));
            }
            i = i + 1;
        }
        proof {
            assert(units@.take(units@.len() as int) =~= units@);
        }
        self.base_log = Ghost(self.inner.action_log());
        self.outer_log = Ghost(Seq::empty());
        proof {
            assert(forwarded_batch(self.middleware, self.outer_log@) == Seq::<Action::V>::empty());
            assert(self.inner.action_log() =~= self.base_log@ + forwarded_batch(
                self.middleware,
                self.outer_log@,
            ));
            assert forall|s: State::V, a: ActionOrThunkView<Action::V>| #[trigger]
                self.transition(s, a) == old(self).transition(s, a) by {
                lemma_chain_state_congruence(
                    self.inner,
                    pre_inner,
                    s,
                    self.middleware.forwards(a),
                );
            }
            assert forall|s: State::V, a: ActionOrThunkView<Action::V>| #[trigger]
                self.notify_states(s, a) == old(self).notify_states(s, a) by {
                lemma_chain_notify_congruence(
                    self.inner,
                    pre_inner,
                    s,
                    self.middleware.forwards(a),
                );
            }
            assert forall|a: ActionOrThunkView<Action::V>| #[trigger]
                self.trace_model(a) == old(self).trace_model(a) by {
                self.middleware.trace_of_congruence(self.inner, pre_inner, a);
            }
        }
    }
}

/// A user record, as loaded by the deferred-work demonstration.
#[derive(Debug, PartialEq, Eq)]
pub struct User {
    pub id: u8,
    pub name: String,
}

impl View for User {
    type V = (u8, Seq<char>);

    open spec fn view(&self) -> (u8, Seq<char>) {
        (self.id, self.name@)
    }
}

impl Clone for User {
    fn clone(&self) -> (r: Self)
        ensures
            r@ == self@,
    {
        User { id: self.id, name: self.name.clone() }
    }
}

/// A state holding the users loaded so far.
#[derive(Debug, PartialEq, Eq)]
pub struct UserState {
    pub users: Vec<User>,
}

impl View for UserState {
    type V = Seq<(u8, Seq<char>)>;

    open spec fn view(&self) -> Seq<(u8, Seq<char>)> {
        views_of(self.users@)
    }
}

impl Default for UserState {
    /// No users loaded yet.
    fn default() -> (r: Self)
        ensures
            r@ == Seq::<(u8, Seq<char>)>::empty(),
    {
        let r = UserState { users: Vec::new() };
        proof {
            assert(r@ =~= Seq::<(u8, Seq<char>)>::empty());
        }
        r
    }
}

/// An action delivering a loaded set of users.
pub enum UserAction {
    UsersLoaded { users: Vec<User> },
}

impl View for UserAction {
    type V = Seq<(u8, Seq<char>)>;

    open spec fn view(&self) -> Seq<(u8, Seq<char>)> {
        match self {
            UserAction::UsersLoaded { users } => views_of(users@),
        }
    }
}

/// The reducer that replaces the user list with the one just loaded.
pub struct UserReducer;

impl Reducer<UserState, UserAction> for UserReducer {
    open spec fn reduce_spec(
        &self,
        state: Seq<(u8, Seq<char>)>,
        action: Seq<(u8, Seq<char>)>,
    ) -> Seq<(u8, Seq<char>)> {
        action
    }

    fn reduce(&self, state: UserState, action: UserAction) -> UserState {
        match action {
            UserAction::UsersLoaded { users } => UserState { users },
        }
    }
}

/// The selector reading the loaded users.
pub struct UsersSelector;

/// A list of user records, compared by content.
#[derive(Debug, PartialEq, Eq)]
pub struct UserList(pub Vec<User>);

impl View for UserList {
    type V = Seq<(u8, Seq<char>)>;

    open spec fn view(&self) -> Seq<(u8, Seq<char>)> {
        views_of(self.0@)
    }
}

impl Selector<UserState> for UsersSelector {
    type Result = UserList;

    open spec fn select_spec(&self, state: Seq<(u8, Seq<char>)>) -> Seq<(u8, Seq<char>)> {
        state
    }

    fn select(&self, state: &UserState) -> (r: UserList) {
        let users = state.users.clone();
        proof {
            assert(views_of(users@) =~= views_of(state.users@));
        }
        UserList(users)
    }
}

/// The deferred unit that loads two users and dispatches them back into
/// the store.
pub struct LoadUsersThunk;

/// The views of the two users the thunk loads.
pub open spec fn loaded_users() -> Seq<(u8, Seq<char>)> {
    seq![(0u8, "John Doe"@), (1u8, "Jane Doe"@)]
}

impl<Api, Sub> Thunk<UserState, UserAction, Api, Sub> for LoadUsersThunk where
    Sub: Subscriber<UserState>,
    Api: StoreApi<UserState, UserAction, Sub>,
{
    open spec fn effect(&self) -> Seq<Seq<(u8, Seq<char>)>> {
        seq![loaded_users()]
    }

    fn execute(&self, store_api: &mut Api, trace: &mut Vec<String>) {
        let ghost pre = *store_api;
        let mut users: Vec<User> = Vec::new();
        users.push(User { id: 0, name: String::from_str("John Doe") });
        users.push(User { id: 1, name: String::from_str("Jane Doe") });
        let action = UserAction::UsersLoaded { users };
        proof {
            assert(action@ =~= loaded_users());
        }
        let ghost action_view = action@;
        store_api.dispatch(action, trace);
        proof {
            lemma_batch_dispatched_single(pre, *store_api, action_view);
            let effect = <LoadUsersThunk as Thunk<UserState, UserAction, Api, Sub>>::effect(self);
            assert(effect =~= seq![action_view]);
            assert(effect.skip(1) =~= Seq::<Seq<(u8, Seq<char>)>>::empty());
            assert(chain_trace(pre, Seq::<Seq<(u8, Seq<char>)>>::empty()) == Seq::<
                Seq<char>,
            >::empty());
            assert(chain_trace(pre, effect) =~= pre.trace_model(action_view) + chain_trace(
                pre,
                effect.skip(1),
            ));
            assert(pre.trace_model(action_view) + Seq::<Seq<char>>::empty() =~= pre.trace_model(
                action_view,
            ));
            assert(chain_trace(pre, effect) =~= pre.trace_model(action_view));
        }
    }
}

} // verus!
