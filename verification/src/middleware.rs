//! The store interface, and middleware composition around its dispatch
//! path: wrapping order determines dispatch order, and every layer's
//! forwarding decision is accounted for in the wrapped store's model.

use vstd::prelude::*;

use crate::selector::Selector;
use crate::store::views_of;
use crate::subscriber::Subscriber;

verus! {

/// A clone of some value whose view is `v`: what a store can promise about
/// a cloned copy of its state.
pub open spec fn cloned_view<State: View + Clone>(v: State::V, r: State) -> bool {
    exists|s: State| s@ == v && vstd::pervasive::cloned::<State>(s, r)
}

/// The common surface of a store: dispatch, select, subscribe.
///
/// Both the plain store and a store wrapped in middleware expose it, which
/// is what lets middleware layers nest.
///
/// Every implementation carries a spec-level model: an invariant, the view
/// of the held state, the log of dispatched actions, the transition an
/// action causes, the states subscribers are notified with per dispatch,
/// and the lines one dispatch appends to the side-effect trace. `dispatch`
/// must move the model exactly one step; `select` must be a pure
/// projection of the state; `subscribe` must register the subscriber and
/// change nothing else.
pub trait StoreApi<State: View, Action: View, Sub: Subscriber<State>>: Sized {
    /// The internal invariant, established by construction and preserved
    /// by every operation.
    spec fn inv(&self) -> bool;

    /// The view of the state currently held behind this interface.
    spec fn state_model(&self) -> State::V;

    /// The views of all actions dispatched through this interface, oldest
    /// first.
    spec fn action_log(&self) -> Seq<Action::V>;

    /// The state an action moves the store to.
    spec fn transition(&self, state: State::V, action: Action::V) -> State::V;

    /// The states subscribers are notified with when one action is
    /// dispatched against the given state.
    spec fn notify_states(&self, state: State::V, action: Action::V) -> Seq<State::V>;

    /// The lines one dispatch of the given action appends to the
    /// side-effect trace.
    spec fn trace_model(&self, action: Action::V) -> Seq<Seq<char>>;

    /// The observation histories of the registered subscribers.
    spec fn subscriber_models(&self) -> Seq<Seq<State::V>>;

    /// Dispatch one action: step the state by `transition`, append the
    /// action to the log, notify every subscriber, and append this
    /// dispatch's lines to `trace`.
    fn dispatch(&mut self, action: Action, trace: &mut Vec<String>)
        requires
            old(self).inv(),
        ensures
            final(self).inv(),
            final(self).state_model() == old(self).transition(old(self).state_model(), action@),
            final(self).action_log() == old(self).action_log().push(action@),
            final(self).subscriber_models() == old(self).subscriber_models().map_values(
                |o: Seq<State::V>| o + old(self).notify_states(old(self).state_model(), action@),
            ),
            views_of(final(trace)@) == views_of(old(trace)@) + old(self).trace_model(action@),
            forall|s: State::V, a: Action::V| #[trigger]
                final(self).transition(s, a) == old(self).transition(s, a),
            forall|s: State::V, a: Action::V| #[trigger]
                final(self).notify_states(s, a) == old(self).notify_states(s, a),
            forall|a: Action::V| #[trigger] final(self).trace_model(a) == old(self).trace_model(a),
    ;

    /// Project a value out of the current state; the store is untouched.
    fn select<Sel: Selector<State>>(&self, selector: Sel) -> (r: Sel::Result)
        requires
            self.inv(),
        ensures
            r@ == selector.select_spec(self.state_model()),
    ;

    /// A clone of the current state.
    fn state_cloned(&self) -> (r: State) where State: Clone
        requires
            self.inv(),
        ensures
            cloned_view::<State>(self.state_model(), r),
    ;

    /// Register one subscriber; it will be notified of every dispatch from
    /// now on. The state and the log are untouched.
    fn subscribe(&mut self, subscriber: Sub)
        requires
            old(self).inv(),
        ensures
            final(self).inv(),
            final(self).state_model() == old(self).state_model(),
            final(self).action_log() == old(self).action_log(),
            final(self).subscriber_models() == old(self).subscriber_models().push(
                subscriber.observed(),
            ),
            forall|s: State::V, a: Action::V| #[trigger]
                final(self).transition(s, a) == old(self).transition(s, a),
            forall|s: State::V, a: Action::V| #[trigger]
                final(self).notify_states(s, a) == old(self).notify_states(s, a),
            forall|a: Action::V| #[trigger] final(self).trace_model(a) == old(self).trace_model(a),
    ;
}

/// The state reached by dispatching a sequence of actions through a store
/// interface, one after the other.
pub open spec fn chain_state<
    State: View,
    InnerAction: View,
    Sub: Subscriber<State>,
    Api: StoreApi<State, InnerAction, Sub>,
>(api: Api, state: State::V, actions: Seq<InnerAction::V>) -> State::V
    decreases actions.len(),
{
    if actions.len() == 0 {
        state
    } else {
        chain_state(api, api.transition(state, actions[0]), actions.skip(1))
    }
}

/// The states subscribers are notified with while a sequence of actions is
/// dispatched through a store interface, in order.
pub open spec fn chain_notify<
    State: View,
    InnerAction: View,
    Sub: Subscriber<State>,
    Api: StoreApi<State, InnerAction, Sub>,
>(api: Api, state: State::V, actions: Seq<InnerAction::V>) -> Seq<State::V>
    decreases actions.len(),
{
    if actions.len() == 0 {
        Seq::empty()
    } else {
        api.notify_states(state, actions[0]) + chain_notify(
            api,
            api.transition(state, actions[0]),
            actions.skip(1),
        )
    }
}

/// The trace lines appended while a sequence of actions is dispatched
/// through a store interface, in order.
pub open spec fn chain_trace<
    State: View,
    InnerAction: View,
    Sub: Subscriber<State>,
    Api: StoreApi<State, InnerAction, Sub>,
>(api: Api, actions: Seq<InnerAction::V>) -> Seq<Seq<char>>
    decreases actions.len(),
{
    if actions.len() == 0 {
        Seq::empty()
    } else {
        api.trace_model(actions[0]) + chain_trace(api, actions.skip(1))
    }
}

/// `post` is `pre` after the given actions were dispatched through it, one
/// after the other: the state is stepped by each action in order, the log
/// grows by exactly those actions, every subscriber observes the
/// intermediate states, and the store's behavioral model is unchanged.
pub open spec fn batch_dispatched<
    State: View,
    InnerAction: View,
    Sub: Subscriber<State>,
    Api: StoreApi<State, InnerAction, Sub>,
>(pre: Api, post: Api, actions: Seq<InnerAction::V>) -> bool {
    &&& post.inv()
    &&& post.state_model() == chain_state(pre, pre.state_model(), actions)
    &&& post.action_log() == pre.action_log() + actions
    &&& post.subscriber_models() == pre.subscriber_models().map_values(
        |o: Seq<State::V>| o + chain_notify(pre, pre.state_model(), actions),
    )
    &&& forall|s: State::V, a: InnerAction::V| #[trigger]
        post.transition(s, a) == pre.transition(s, a)
    &&& forall|s: State::V, a: InnerAction::V| #[trigger]
        post.notify_states(s, a) == pre.notify_states(s, a)
    &&& forall|a: InnerAction::V| #[trigger] post.trace_model(a) == pre.trace_model(a)
}

/// Dispatching no actions at all leaves a store exactly as it is.
pub proof fn lemma_batch_dispatched_empty<
    State: View,
    InnerAction: View,
    Sub: Subscriber<State>,
    Api: StoreApi<State, InnerAction, Sub>,
>(api: Api)
    requires
        api.inv(),
    ensures
        batch_dispatched(api, api, Seq::<InnerAction::V>::empty()),
{
    assert(api.action_log() + Seq::<InnerAction::V>::empty() =~= api.action_log());
    assert(api.subscriber_models().map_values(
        |o: Seq<State::V>| o + chain_notify(api, api.state_model(), Seq::<InnerAction::V>::empty()),
    ) =~~= api.subscriber_models());
}

/// One dispatch, as the store interface contract describes it, is a batch
/// of exactly one action.
pub proof fn lemma_batch_dispatched_single<
    State: View,
    InnerAction: View,
    Sub: Subscriber<State>,
    Api: StoreApi<State, InnerAction, Sub>,
>(pre: Api, post: Api, action: InnerAction::V)
    requires
        post.inv(),
        post.state_model() == pre.transition(pre.state_model(), action),
        post.action_log() == pre.action_log().push(action),
        post.subscriber_models() == pre.subscriber_models().map_values(
            |o: Seq<State::V>| o + pre.notify_states(pre.state_model(), action),
        ),
        forall|s: State::V, a: InnerAction::V| #[trigger] post.transition(s, a) == pre.transition(
            s,
            a,
        ),
        forall|s: State::V, a: InnerAction::V| #[trigger] post.notify_states(s, a)
            == pre.notify_states(s, a),
        forall|a: InnerAction::V| #[trigger] post.trace_model(a) == pre.trace_model(a),
    ensures
        batch_dispatched(pre, post, seq![action]),
{
    let single: Seq<InnerAction::V> = seq![action];
    let empty: Seq<InnerAction::V> = Seq::empty();
    let stepped = pre.transition(pre.state_model(), action);
    assert(single.skip(1) =~= empty);
    assert(chain_state(pre, stepped, empty) == stepped);
    assert(chain_state(pre, pre.state_model(), single) == stepped);
    assert(chain_notify(pre, stepped, empty) == Seq::<State::V>::empty());
    assert(chain_notify(pre, pre.state_model(), single) =~= pre.notify_states(
        pre.state_model(),
        action,
    ));
    assert(post.action_log() =~= pre.action_log() + single);
    assert(post.subscriber_models() =~~= pre.subscriber_models().map_values(
        |o: Seq<State::V>| o + chain_notify(pre, pre.state_model(), single),
    ));
}

/// Dispatching a concatenation of action sequences steps the state as the
/// first part, then the second from where the first ended.
pub proof fn lemma_chain_state_append<
    State: View,
    InnerAction: View,
    Sub: Subscriber<State>,
    Api: StoreApi<State, InnerAction, Sub>,
>(api: Api, state: State::V, first: Seq<InnerAction::V>, second: Seq<InnerAction::V>)
    ensures
        chain_state(api, state, first + second) == chain_state(
            api,
            chain_state(api, state, first),
            second,
        ),
    decreases first.len(),
{
    if first.len() == 0 {
        assert(first + second =~= second);
    } else {
        assert((first + second)[0] == first[0]);
        assert((first + second).skip(1) =~= first.skip(1) + second);
        lemma_chain_state_append(api, api.transition(state, first[0]), first.skip(1), second);
    }
}

/// The notifications of a concatenation are the notifications of the first
/// part followed by those of the second, started from where the first
/// ended.
pub proof fn lemma_chain_notify_append<
    State: View,
    InnerAction: View,
    Sub: Subscriber<State>,
    Api: StoreApi<State, InnerAction, Sub>,
>(api: Api, state: State::V, first: Seq<InnerAction::V>, second: Seq<InnerAction::V>)
    ensures
        chain_notify(api, state, first + second) == chain_notify(api, state, first) + chain_notify(
            api,
            chain_state(api, state, first),
            second,
        ),
    decreases first.len(),
{
    if first.len() == 0 {
        assert(first + second =~= second);
        assert(chain_notify(api, state, first) + chain_notify(api, state, second) =~= chain_notify(
            api,
            state,
            second,
        ));
    } else {
        assert((first + second)[0] == first[0]);
        assert((first + second).skip(1) =~= first.skip(1) + second);
        let stepped = api.transition(state, first[0]);
        lemma_chain_notify_append(api, stepped, first.skip(1), second);
        assert(api.notify_states(state, first[0]) + (chain_notify(api, stepped, first.skip(1))
            + chain_notify(api, chain_state(api, stepped, first.skip(1)), second))
            =~= (api.notify_states(state, first[0]) + chain_notify(api, stepped, first.skip(1)))
            + chain_notify(api, chain_state(api, stepped, first.skip(1)), second));
    }
}

/// The trace of a concatenation is the trace of the first part followed by
/// the trace of the second.
pub proof fn lemma_chain_trace_append<
    State: View,
    InnerAction: View,
    Sub: Subscriber<State>,
    Api: StoreApi<State, InnerAction, Sub>,
>(api: Api, first: Seq<InnerAction::V>, second: Seq<InnerAction::V>)
    ensures
        chain_trace(api, first + second) == chain_trace(api, first) + chain_trace(api, second),
    decreases first.len(),
{
    if first.len() == 0 {
        assert(first + second =~= second);
        assert(chain_trace(api, first) + chain_trace(api, second) =~= chain_trace(api, second));
    } else {
        assert((first + second)[0] == first[0]);
        assert((first + second).skip(1) =~= first.skip(1) + second);
        lemma_chain_trace_append(api, first.skip(1), second);
        assert(api.trace_model(first[0]) + (chain_trace(api, first.skip(1)) + chain_trace(
            api,
            second,
        )) =~= (api.trace_model(first[0]) + chain_trace(api, first.skip(1))) + chain_trace(
            api,
            second,
        ));
    }
}

/// Batch dispatches compose: a batch of `first` followed by a batch of
/// `second` is one batch of `first + second`.
pub proof fn lemma_batch_dispatched_concat<
    State: View,
    InnerAction: View,
    Sub: Subscriber<State>,
    Api: StoreApi<State, InnerAction, Sub>,
>(pre: Api, mid: Api, post: Api, first: Seq<InnerAction::V>, second: Seq<InnerAction::V>)
    requires
        batch_dispatched(pre, mid, first),
        batch_dispatched(mid, post, second),
    ensures
        batch_dispatched(pre, post, first + second),
{
    lemma_chain_state_append(pre, pre.state_model(), first, second);
    lemma_chain_notify_append(pre, pre.state_model(), first, second);
    lemma_chain_state_congruence(mid, pre, mid.state_model(), second);
    lemma_chain_notify_congruence(mid, pre, mid.state_model(), second);
    assert(post.action_log() =~= pre.action_log() + (first + second));
    let first_notes = chain_notify(pre, pre.state_model(), first);
    let second_notes = chain_notify(pre, chain_state(pre, pre.state_model(), first), second);
    assert(post.subscriber_models() =~~= pre.subscriber_models().map_values(
        |o: Seq<State::V>| o + chain_notify(pre, pre.state_model(), first + second),
    )) by {
        assert forall|i: int| 0 <= i < pre.subscriber_models().len() implies
            post.subscriber_models()[i] == pre.subscriber_models()[i] + (first_notes
            + second_notes) by {
            assert(mid.subscriber_models()[i] == pre.subscriber_models()[i] + first_notes);
            assert(post.subscriber_models()[i] == mid.subscriber_models()[i] + second_notes);
            assert((pre.subscriber_models()[i] + first_notes) + second_notes
                =~= pre.subscriber_models()[i] + (first_notes + second_notes));
        }
    }
}

/// Two store interfaces with the same transition step the same state to
/// the same place.
pub proof fn lemma_chain_state_congruence<
    State: View,
    InnerAction: View,
    Sub: Subscriber<State>,
    Api: StoreApi<State, InnerAction, Sub>,
>(a1: Api, a2: Api, state: State::V, actions: Seq<InnerAction::V>)
    requires
        forall|s: State::V, a: InnerAction::V| #[trigger] a1.transition(s, a) == a2.transition(
            s,
            a,
        ),
    ensures
        chain_state(a1, state, actions) == chain_state(a2, state, actions),
    decreases actions.len(),
{
    if actions.len() == 0 {
    } else {
        lemma_chain_state_congruence(a1, a2, a1.transition(state, actions[0]), actions.skip(1));
    }
}

/// Two store interfaces with the same transition and notification models
/// notify subscribers with the same states.
pub proof fn lemma_chain_notify_congruence<
    State: View,
    InnerAction: View,
    Sub: Subscriber<State>,
    Api: StoreApi<State, InnerAction, Sub>,
>(a1: Api, a2: Api, state: State::V, actions: Seq<InnerAction::V>)
    requires
        forall|s: State::V, a: InnerAction::V| #[trigger] a1.transition(s, a) == a2.transition(
            s,
            a,
        ),
        forall|s: State::V, a: InnerAction::V| #[trigger] a1.notify_states(s, a)
            == a2.notify_states(s, a),
    ensures
        chain_notify(a1, state, actions) == chain_notify(a2, state, actions),
    decreases actions.len(),
{
    if actions.len() == 0 {
    } else {
        lemma_chain_notify_congruence(a1, a2, a1.transition(state, actions[0]), actions.skip(1));
    }
}

/// Two store interfaces with the same trace model append the same trace
/// lines.
pub proof fn lemma_chain_trace_congruence<
    State: View,
    InnerAction: View,
    Sub: Subscriber<State>,
    Api: StoreApi<State, InnerAction, Sub>,
>(a1: Api, a2: Api, actions: Seq<InnerAction::V>)
    requires
        forall|a: InnerAction::V| #[trigger] a1.trace_model(a) == a2.trace_model(a),
    ensures
        chain_trace(a1, actions) == chain_trace(a2, actions),
    decreases actions.len(),
{
    if actions.len() == 0 {
    } else {
        lemma_chain_trace_congruence(a1, a2, actions.skip(1));
    }
}

/// The inner actions a middleware forwards for a whole sequence of outer
/// actions, in order.
pub open spec fn forwarded_batch<
    State: View,
    Action: View,
    Inner,
    InnerAction: View,
    Sub: Subscriber<State>,
    M: MiddleWare<State, Action, Inner, InnerAction, Sub>,
>(middleware: M, actions: Seq<Action::V>) -> Seq<InnerAction::V> where
    Inner: StoreApi<State, InnerAction, Sub>,

    decreases actions.len(),
{
    if actions.len() == 0 {
        Seq::empty()
    } else {
        middleware.forwards(actions[0]) + forwarded_batch(middleware, actions.skip(1))
    }
}

/// Forwarding one more outer action appends exactly its forwards.
pub proof fn lemma_forwarded_batch_push<
    State: View,
    Action: View,
    Inner,
    InnerAction: View,
    Sub: Subscriber<State>,
    M: MiddleWare<State, Action, Inner, InnerAction, Sub>,
>(middleware: M, actions: Seq<Action::V>, action: Action::V) where
    Inner: StoreApi<State, InnerAction, Sub>,

    ensures
        forwarded_batch(middleware, actions.push(action)) == forwarded_batch(
            middleware,
            actions,
        ) + middleware.forwards(action),
    decreases actions.len(),
{
    if actions.len() == 0 {
        assert(actions.push(action)[0] == action);
        assert(actions.push(action).skip(1) =~= Seq::<Action::V>::empty());
        assert(forwarded_batch(middleware, Seq::<Action::V>::empty()) == Seq::<
            InnerAction::V,
        >::empty());
        assert(forwarded_batch(middleware, actions.push(action)) =~= middleware.forwards(action));
        assert(forwarded_batch(middleware, actions) + middleware.forwards(action)
            =~= middleware.forwards(action));
    } else {
        assert(actions.push(action)[0] == actions[0]);
        assert(actions.push(action).skip(1) =~= actions.skip(1).push(action));
        lemma_forwarded_batch_push(middleware, actions.skip(1), action);
        assert(forwarded_batch(middleware, actions.push(action)) == middleware.forwards(actions[0])
            + (forwarded_batch(middleware, actions.skip(1)) + middleware.forwards(action)));
        assert(middleware.forwards(actions[0]) + (forwarded_batch(middleware, actions.skip(1))
            + middleware.forwards(action)) =~= (middleware.forwards(actions[0])
            + forwarded_batch(middleware, actions.skip(1))) + middleware.forwards(action));
    }
}

/// Two middleware values that forward alike forward whole sequences alike.
pub proof fn lemma_forwarded_batch_congruence<
    State: View,
    Action: View,
    Inner,
    InnerAction: View,
    Sub: Subscriber<State>,
    M: MiddleWare<State, Action, Inner, InnerAction, Sub>,
>(m1: M, m2: M, actions: Seq<Action::V>) where
    Inner: StoreApi<State, InnerAction, Sub>,

    requires
        forall|a: Action::V| #[trigger] m1.forwards(a) == m2.forwards(a),
    ensures
        forwarded_batch(m1, actions) == forwarded_batch(m2, actions),
    decreases actions.len(),
{
    if actions.len() == 0 {
    } else {
        lemma_forwarded_batch_congruence(m1, m2, actions.skip(1));
    }
}

/// A middleware intercepts the dispatch path of an inner store: for every
/// outer action it forwards zero, one or many inner actions, and may add
/// its own side effects (trace lines) around the forwarding.
///
/// `forwards` is the middleware's whole decision: the inner actions one
/// outer action turns into. `trace_of` is the full sequence of trace lines
/// one outer dispatch appends, the middleware's own lines and those of the
/// inner store interleaved in the order they are written — which is what
/// pins down the nesting order of stacked middleware. `seeds` are the
/// actions `init` dispatches into the inner store at wrap time.
pub trait MiddleWare<
    State: View,
    Action: View,
    Inner,
    InnerAction: View,
    Sub: Subscriber<State>,
>: Sized where Inner: StoreApi<State, InnerAction, Sub> {
    /// The inner actions one outer action is forwarded as, in order.
    spec fn forwards(&self, action: Action::V) -> Seq<InnerAction::V>;

    /// The trace lines one outer dispatch appends, given the inner store
    /// it will forward through.
    spec fn trace_of(&self, inner: Inner, action: Action::V) -> Seq<Seq<char>>;

    /// The actions dispatched into the inner store at wrap time.
    spec fn seeds(&self) -> Seq<InnerAction::V>;

    /// `trace_of` may depend on the inner store only through the lines the
    /// inner store itself would append.
    proof fn trace_of_congruence(&self, i1: Inner, i2: Inner, action: Action::V)
        requires
            forall|a: InnerAction::V| #[trigger] i1.trace_model(a) == i2.trace_model(a),
        ensures
            self.trace_of(i1, action) == self.trace_of(i2, action),
    ;

    /// Called exactly once, at wrap time, before any outer dispatch is
    /// possible; it may seed startup behavior by dispatching into the
    /// inner store.
    fn init(&mut self, inner: &mut Inner)
        requires
            old(inner).inv(),
        ensures
            batch_dispatched(*old(inner), *final(inner), old(self).seeds()),
            final(self).seeds() == old(self).seeds(),
            forall|a: Action::V| #[trigger] final(self).forwards(a) == old(self).forwards(a),
            forall|i: Inner, a: Action::V| #[trigger] final(self).trace_of(i, a) == old(
                self,
            ).trace_of(i, a),
    ;

    /// Called for every outer dispatch: decide what to forward into the
    /// inner store, and write this dispatch's trace lines.
    fn dispatch(&mut self, action: Action, inner: &mut Inner, trace: &mut Vec<String>)
        requires
            old(inner).inv(),
        ensures
            batch_dispatched(*old(inner), *final(inner), old(self).forwards(action@)),
            views_of(final(trace)@) == views_of(old(trace)@) + old(self).trace_of(
                *old(inner),
                action@,
            ),
            final(self).seeds() == old(self).seeds(),
            forall|a: Action::V| #[trigger] final(self).forwards(a) == old(self).forwards(a),
            forall|i: Inner, a: Action::V| #[trigger] final(self).trace_of(i, a) == old(
                self,
            ).trace_of(i, a),
    ;
}

/// A store tied together with one middleware layer around its dispatch
/// path.
///
/// Wrapping store `S` with `M1` and then `M2` produces a chain where an
/// outer dispatch first enters `M2`, which (if it forwards) enters `M1`,
/// which (if it forwards) reaches `S`: the last-wrapped middleware runs
/// first on the way in. `select` and `subscribe` pass through every layer
/// unchanged.
pub struct StoreWithMiddleware<Inner, M, State, InnerAction, OuterAction, Sub> where
    State: View,
    InnerAction: View,
    OuterAction: View,
    Sub: Subscriber<State>,
    Inner: StoreApi<State, InnerAction, Sub>,
    M: MiddleWare<State, OuterAction, Inner, InnerAction, Sub>,
{
    pub inner: Inner,
    pub middleware: M,
    pub outer_log: Ghost<Seq<OuterAction::V>>,
    pub base_log: Ghost<Seq<InnerAction::V>>,
    pub _types: core::marker::PhantomData<(State, InnerAction, Sub)>,
}

impl<Inner, M, State, InnerAction, OuterAction, Sub> StoreWithMiddleware<
    Inner,
    M,
    State,
    InnerAction,
    OuterAction,
    Sub,
> where
    State: View,
    InnerAction: View,
    OuterAction: View,
    Sub: Subscriber<State>,
    Inner: StoreApi<State, InnerAction, Sub>,
    M: MiddleWare<State, OuterAction, Inner, InnerAction, Sub>,
{
    /// Wrap `inner` with `middleware`, running the middleware's
    /// initialization hook exactly once before any outer dispatch is
    /// possible.
    pub fn new(inner: Inner, middleware: M) -> (r: Self)
        requires
            inner.inv(),
        ensures
            r.inv(),
            batch_dispatched(inner, r.inner, middleware.seeds()),
            r.outer_log@ == Seq::<OuterAction::V>::empty(),
            r.base_log@ == inner.action_log() + middleware.seeds(),
            r.middleware.seeds() == middleware.seeds(),
            forall|a: OuterAction::V| #[trigger] r.middleware.forwards(a) == middleware.forwards(
                a,
            ),
            forall|i: Inner, a: OuterAction::V| #[trigger] r.middleware.trace_of(i, a)
                == middleware.trace_of(i, a),
    {
        let mut inner = inner;
        let mut middleware = middleware;
        middleware.init(&mut inner);
        let ghost base = inner.action_log();
        let r = StoreWithMiddleware {
            inner,
            middleware,
            outer_log: Ghost(Seq::empty()),
            base_log: Ghost(base),
            _types: core::marker::PhantomData,
        };
        proof {
            assert(forwarded_batch(r.middleware, r.outer_log@) == Seq::<InnerAction::V>::empty());
            assert(r.inner.action_log() =~= r.base_log@ + forwarded_batch(
                r.middleware,
                r.outer_log@,
            ));
        }
        r
    }

    /// Wrap this whole chain with one more middleware layer; the new layer
    /// will run first on every later dispatch.
    pub fn wrap<MNew, NewOuterAction>(self, middleware: MNew) -> (r: StoreWithMiddleware<
        Self,
        MNew,
        State,
        OuterAction,
        NewOuterAction,
        Sub,
    >) where
        NewOuterAction: View,
        MNew: MiddleWare<State, NewOuterAction, Self, OuterAction, Sub>,
        requires
            self.inv(),
        ensures
            r.inv(),
            batch_dispatched(self, r.inner, middleware.seeds()),
            r.outer_log@ == Seq::<NewOuterAction::V>::empty(),
            r.base_log@ == self.action_log() + middleware.seeds(),
            r.middleware.seeds() == middleware.seeds(),
            forall|a: NewOuterAction::V| #[trigger] r.middleware.forwards(a)
                == middleware.forwards(a),
            forall|i: Self, a: NewOuterAction::V| #[trigger] r.middleware.trace_of(i, a)
                == middleware.trace_of(i, a),
    {
        StoreWithMiddleware::new(self, middleware)
    }
}

impl<Inner, M, State, InnerAction, OuterAction, Sub> StoreApi<
    State,
    OuterAction,
    Sub,
> for StoreWithMiddleware<Inner, M, State, InnerAction, OuterAction, Sub> where
    State: View,
    InnerAction: View,
    OuterAction: View,
    Sub: Subscriber<State>,
    Inner: StoreApi<State, InnerAction, Sub>,
    M: MiddleWare<State, OuterAction, Inner, InnerAction, Sub>,
{
    open spec fn inv(&self) -> bool {
        &&& self.inner.inv()
        &&& self.inner.action_log() == self.base_log@ + forwarded_batch(
            self.middleware,
            self.outer_log@,
        )
    }

    open spec fn state_model(&self) -> State::V {
        self.inner.state_model()
    }

    open spec fn action_log(&self) -> Seq<OuterAction::V> {
        self.outer_log@
    }

    open spec fn transition(&self, state: State::V, action: OuterAction::V) -> State::V {
        chain_state(self.inner, state, self.middleware.forwards(action))
    }

    open spec fn notify_states(&self, state: State::V, action: OuterAction::V) -> Seq<State::V> {
        chain_notify(self.inner, state, self.middleware.forwards(action))
    }

    open spec fn trace_model(&self, action: OuterAction::V) -> Seq<Seq<char>> {
        self.middleware.trace_of(self.inner, action)
    }

    open spec fn subscriber_models(&self) -> Seq<Seq<State::V>> {
        self.inner.subscriber_models()
    }

    fn dispatch(&mut self, action: OuterAction, trace: &mut Vec<String>) {
        let ghost action_view = action@;
        let ghost pre_inner = self.inner;
        let ghost pre_middleware = self.middleware;
        self.middleware.dispatch(action, &mut self.inner, trace);
        self.outer_log = Ghost(self.outer_log@.push(action_view));
        proof {
            lemma_forwarded_batch_congruence(
                self.middleware,
                pre_middleware,
                old(self).outer_log@,
            );
            lemma_forwarded_batch_push(self.middleware, old(self).outer_log@, action_view);
            assert(self.inner.action_log() =~= self.base_log@ + forwarded_batch(
                self.middleware,
                self.outer_log@,
            ));
            assert forall|s: State::V, a: OuterAction::V| #[trigger]
                self.transition(s, a) == old(self).transition(s, a) by {
                lemma_chain_state_congruence(
                    self.inner,
                    pre_inner,
                    s,
                    self.middleware.forwards(a),
                );
            }
            assert forall|s: State::V, a: OuterAction::V| #[trigger]
                self.notify_states(s, a) == old(self).notify_states(s, a) by {
                lemma_chain_notify_congruence(
                    self.inner,
                    pre_inner,
                    s,
                    self.middleware.forwards(a),
                );
            }
            assert forall|a: OuterAction::V| #[trigger]
                self.trace_model(a) == old(self).trace_model(a) by {
                self.middleware.trace_of_congruence(self.inner, pre_inner, a);
            }
        }
    }

    fn select<Sel: Selector<State>>(&self, selector: Sel) -> (r: Sel::Result) {
        self.inner.select(selector)
    }

    fn state_cloned(&self) -> (r: State) where State: Clone {
        self.inner.state_cloned()
    }

    fn subscribe(&mut self, subscriber: Sub) {
        let ghost pre_inner = self.inner;
        self.inner.subscribe(subscriber);
        proof {
            assert forall|s: State::V, a: OuterAction::V| #[trigger]
                self.transition(s, a) == old(self).transition(s, a) by {
                lemma_chain_state_congruence(
                    self.inner,
                    pre_inner,
                    s,
                    self.middleware.forwards(a),
                );
            }
            assert forall|s: State::V, a: OuterAction::V| #[trigger]
                self.notify_states(s, a) == old(self).notify_states(s, a) by {
                lemma_chain_notify_congruence(
                    self.inner,
                    pre_inner,
                    s,
                    self.middleware.forwards(a),
                );
            }
            assert forall|a: OuterAction::V| #[trigger]
                self.trace_model(a) == old(self).trace_model(a) by {
                self.middleware.trace_of_congruence(self.inner, pre_inner, a);
            }
        }
    }
}

} // verus!
