//! The state worker: the single owner of the state and the subscriber
//! list, draining its mailbox strictly in arrival order. The `run`
//! contract and the lemmas beside it pin down the ordering guarantees
//! that the first-in-first-out mailbox buys: sequential application,
//! read-your-writes, and one notification per dispatch.

use vstd::prelude::*;

mod dispatch;
mod mailbox;
mod select;
mod subscribe;

pub use dispatch::Dispatch;
pub use mailbox::Mailbox;
pub use select::Select;
pub use subscribe::Subscribe;

use crate::reducer::apply_actions;
use crate::reducer::lemma_apply_actions_push;
use crate::reducer::Reducer;
use crate::selector::Selector;
use crate::subscriber::Subscriber;

verus! {

/// One work item, as it travels through the mailbox: a dispatch, a select
/// or a subscribe request.
pub enum Work<State: View, Action: View, S: Selector<State>, Sub> {
    Dispatch(Dispatch<Action>),
    Select(Select<State, S>),
    Subscribe(Subscribe<Sub>),
}

/// The observation histories of a sequence of subscribers.
pub open spec fn observed_of<State: View, Sub: Subscriber<State>>(
    subs: Seq<Sub>,
) -> Seq<Seq<State::V>> {
    subs.map_values(|s: Sub| s.observed())
}

/// The views of a sequence of values.
pub open spec fn views_of<T: View>(s: Seq<T>) -> Seq<T::V> {
    s.map_values(|x: T| x@)
}

/// The actions carried by the dispatch items of a work sequence, in order.
pub open spec fn actions_of<State: View, Action: View, S: Selector<State>, Sub>(
    items: Seq<Work<State, Action, S, Sub>>,
) -> Seq<Action::V>
    decreases items.len(),
{
    if items.len() == 0 {
        Seq::empty()
    } else {
        match items[0] {
            Work::Dispatch(d) => seq![d.action@] + actions_of(items.skip(1)),
            _ => actions_of(items.skip(1)),
        }
    }
}

/// The state after a worker has drained the given work sequence, starting
/// from `state`: each dispatch steps the state by the reducer, selects and
/// subscribes leave it unchanged.
pub open spec fn run_state<
    State: View,
    Action: View,
    R: Reducer<State, Action>,
    S: Selector<State>,
    Sub: Subscriber<State>,
>(reducer: R, state: State::V, items: Seq<Work<State, Action, S, Sub>>) -> State::V
    decreases items.len(),
{
    if items.len() == 0 {
        state
    } else {
        match items[0] {
            Work::Dispatch(d) => run_state(
                reducer,
                reducer.reduce_spec(state, d.action@),
                items.skip(1),
            ),
            _ => run_state(reducer, state, items.skip(1)),
        }
    }
}

/// The selection results a worker returns while draining the given work
/// sequence: one per select item, each computed from the state at the
/// moment the select is processed — after every dispatch ahead of it and
/// before every dispatch behind it.
pub open spec fn run_results<
    State: View,
    Action: View,
    R: Reducer<State, Action>,
    S: Selector<State>,
    Sub: Subscriber<State>,
>(reducer: R, state: State::V, items: Seq<Work<State, Action, S, Sub>>) -> Seq<
    <S::Result as View>::V,
>
    decreases items.len(),
{
    if items.len() == 0 {
        Seq::empty()
    } else {
        match items[0] {
            Work::Dispatch(d) => run_results(
                reducer,
                reducer.reduce_spec(state, d.action@),
                items.skip(1),
            ),
            Work::Select(sel) => seq![sel.selector.select_spec(state)] + run_results(
                reducer,
                state,
                items.skip(1),
            ),
            Work::Subscribe(_) => run_results(reducer, state, items.skip(1)),
        }
    }
}

/// The states a subscriber registered at the front of the work sequence is
/// notified with: one state per dispatch, namely the state that dispatch
/// produced, in dispatch order.
pub open spec fn dispatch_states<
    State: View,
    Action: View,
    R: Reducer<State, Action>,
    S: Selector<State>,
    Sub: Subscriber<State>,
>(reducer: R, state: State::V, items: Seq<Work<State, Action, S, Sub>>) -> Seq<State::V>
    decreases items.len(),
{
    if items.len() == 0 {
        Seq::empty()
    } else {
        match items[0] {
            Work::Dispatch(d) => {
                let stepped = reducer.reduce_spec(state, d.action@);
                seq![stepped] + dispatch_states(reducer, stepped, items.skip(1))
            },
            _ => dispatch_states(reducer, state, items.skip(1)),
        }
    }
}

/// The subscriber observation histories after a worker has drained the
/// given work sequence: each dispatch appends the new state to every
/// registered history, and each subscribe item adds the history of the
/// incoming subscriber.
pub open spec fn run_observed<
    State: View,
    Action: View,
    R: Reducer<State, Action>,
    S: Selector<State>,
    Sub: Subscriber<State>,
>(
    reducer: R,
    state: State::V,
    items: Seq<Work<State, Action, S, Sub>>,
    observed: Seq<Seq<State::V>>,
) -> Seq<Seq<State::V>>
    decreases items.len(),
{
    if items.len() == 0 {
        observed
    } else {
        match items[0] {
            Work::Dispatch(d) => {
                let stepped = reducer.reduce_spec(state, d.action@);
                run_observed(
                    reducer,
                    stepped,
                    items.skip(1),
                    observed.map_values(|o: Seq<State::V>| o.push(stepped)),
                )
            },
            Work::Select(_) => run_observed(reducer, state, items.skip(1), observed),
            Work::Subscribe(su) => run_observed(
                reducer,
                state,
                items.skip(1),
                observed.push(su.subscriber.observed()),
            ),
        }
    }
}

/// Draining a work sequence folds exactly the dispatched actions into the
/// state, in order: no step is skipped and none is applied twice.
pub proof fn lemma_run_state_is_fold<
    State: View,
    Action: View,
    R: Reducer<State, Action>,
    S: Selector<State>,
    Sub: Subscriber<State>,
>(reducer: R, state: State::V, items: Seq<Work<State, Action, S, Sub>>)
    ensures
        run_state(reducer, state, items) == apply_actions(
            reducer,
            state,
            actions_of(items),
        ),
    decreases items.len(),
{
    if items.len() == 0 {
    } else {
        match items[0] {
            Work::Dispatch(d) => {
                let stepped = reducer.reduce_spec(state, d.action@);
                lemma_run_state_is_fold(reducer, stepped, items.skip(1));
                assert((seq![d.action@] + actions_of(items.skip(1))).skip(1) =~= actions_of(
                    items.skip(1),
                ));
                assert((seq![d.action@] + actions_of(items.skip(1)))[0] == d.action@);
                assert(apply_actions(reducer, state, actions_of(items)) == apply_actions(
                    reducer,
                    stepped,
                    actions_of(items.skip(1)),
                ));
            },
            _ => {
                lemma_run_state_is_fold(reducer, state, items.skip(1));
            },
        }
    }
}

/// Read-your-writes: a selection enqueued behind any earlier work observes
/// the state with every earlier dispatch already applied, whatever is
/// enqueued behind the selection.
pub proof fn lemma_read_your_writes<
    State: View,
    Action: View,
    R: Reducer<State, Action>,
    S: Selector<State>,
    Sub: Subscriber<State>,
>(
    reducer: R,
    state: State::V,
    before: Seq<Work<State, Action, S, Sub>>,
    sel: Select<State, S>,
    after: Seq<Work<State, Action, S, Sub>>,
)
    ensures
        ({
            let results = run_results(reducer, state, before + seq![Work::Select(sel)] + after);
            let idx = run_results(reducer, state, before).len() as int;
            &&& results.len() > idx
            &&& results[idx] == sel.selector.select_spec(run_state(reducer, state, before))
        }),
    decreases before.len(),
{
    let items = before + seq![Work::Select(sel)] + after;
    if before.len() == 0 {
        assert(items[0] == Work::<State, Action, S, Sub>::Select(sel));
        assert(items.skip(1) =~= after);
        assert(run_results(reducer, state, items) == seq![sel.selector.select_spec(state)]
            + run_results(reducer, state, after));
    } else {
        assert(items[0] == before[0]);
        assert(items.skip(1) =~= before.skip(1) + seq![Work::Select(sel)] + after);
        match before[0] {
            Work::Dispatch(d) => {
                let stepped = reducer.reduce_spec(state, d.action@);
                lemma_read_your_writes(reducer, stepped, before.skip(1), sel, after);
            },
            Work::Select(s0) => {
                lemma_read_your_writes(reducer, state, before.skip(1), sel, after);
            },
            Work::Subscribe(_) => {
                lemma_read_your_writes(reducer, state, before.skip(1), sel, after);
            },
        }
    }
}

/// A history already registered when the worker starts draining is
/// extended by exactly the dispatch states of the drained work.
pub proof fn lemma_run_observed_existing<
    State: View,
    Action: View,
    R: Reducer<State, Action>,
    S: Selector<State>,
    Sub: Subscriber<State>,
>(
    reducer: R,
    state: State::V,
    items: Seq<Work<State, Action, S, Sub>>,
    observed: Seq<Seq<State::V>>,
    i: int,
)
    requires
        0 <= i < observed.len(),
    ensures
        run_observed(reducer, state, items, observed).len() >= observed.len(),
        run_observed(reducer, state, items, observed)[i] == observed[i] + dispatch_states(
            reducer,
            state,
            items,
        ),
    decreases items.len(),
{
    if items.len() == 0 {
        assert(observed[i] + dispatch_states(reducer, state, items) =~= observed[i]);
    } else {
        match items[0] {
            Work::Dispatch(d) => {
                let stepped = reducer.reduce_spec(state, d.action@);
                let pushed = observed.map_values(|o: Seq<State::V>| o.push(stepped));
                lemma_run_observed_existing(reducer, stepped, items.skip(1), pushed, i);
                assert(observed[i] + dispatch_states(reducer, state, items) =~= pushed[i]
                    + dispatch_states(reducer, stepped, items.skip(1)));
            },
            Work::Select(_) => {
                lemma_run_observed_existing(reducer, state, items.skip(1), observed, i);
            },
            Work::Subscribe(su) => {
                let pushed = observed.push(su.subscriber.observed());
                lemma_run_observed_existing(reducer, state, items.skip(1), pushed, i);
            },
        }
    }
}

/// A subscriber registered before the remaining work is notified exactly
/// once per later dispatch, with the state that dispatch produced, in
/// dispatch order.
pub proof fn lemma_subscribe_then_notifications<
    State: View,
    Action: View,
    R: Reducer<State, Action>,
    S: Selector<State>,
    Sub: Subscriber<State>,
>(
    reducer: R,
    state: State::V,
    su: Subscribe<Sub>,
    rest: Seq<Work<State, Action, S, Sub>>,
    observed: Seq<Seq<State::V>>,
)
    ensures
        ({
            let out = run_observed(
                reducer,
                state,
                seq![Work::Subscribe(su)] + rest,
                observed,
            );
            &&& out.len() > observed.len()
            &&& out[observed.len() as int] == su.subscriber.observed() + dispatch_states(
                reducer,
                state,
                rest,
            )
            &&& dispatch_states(reducer, state, rest).len() == actions_of(rest).len()
        }),
{
    let items = seq![Work::Subscribe(su)] + rest;
    assert(items[0] == Work::<State, Action, S, Sub>::Subscribe(su));
    assert(items.skip(1) =~= rest);
    let pushed = observed.push(su.subscriber.observed());
    lemma_run_observed_existing(reducer, state, rest, pushed, observed.len() as int);
    lemma_dispatch_states_len(reducer, state, rest);
}

/// There are exactly as many notification states as dispatched actions.
pub proof fn lemma_dispatch_states_len<
    State: View,
    Action: View,
    R: Reducer<State, Action>,
    S: Selector<State>,
    Sub: Subscriber<State>,
>(reducer: R, state: State::V, items: Seq<Work<State, Action, S, Sub>>)
    ensures
        dispatch_states(reducer, state, items).len() == actions_of(items).len(),
    decreases items.len(),
{
    if items.len() == 0 {
    } else {
        match items[0] {
            Work::Dispatch(d) => {
                lemma_dispatch_states_len(
                    reducer,
                    reducer.reduce_spec(state, d.action@),
                    items.skip(1),
                );
            },
            _ => {
                lemma_dispatch_states_len(reducer, state, items.skip(1));
            },
        }
    }
}

/// Selection is idempotent and side-effect free: two selections with no
/// dispatch in between return equal results, and leave the state exactly
/// as it was.
pub proof fn lemma_select_idempotent<
    State: View,
    Action: View,
    R: Reducer<State, Action>,
    S: Selector<State>,
    Sub: Subscriber<State>,
>(reducer: R, state: State::V, sel: Select<State, S>)
    ensures
        ({
            let items: Seq<Work<State, Action, S, Sub>> = seq![
                Work::Select(sel),
                Work::Select(sel),
            ];
            let twice = sel.selector.select_spec(state);
            &&& run_state(reducer, state, items) == state
            &&& run_results(reducer, state, items) == seq![twice, twice]
        }),
{
    let items: Seq<Work<State, Action, S, Sub>> = seq![Work::Select(sel), Work::Select(sel)];
    let tail: Seq<Work<State, Action, S, Sub>> = seq![Work::Select(sel)];
    let empty: Seq<Work<State, Action, S, Sub>> = Seq::empty();
    let twice = sel.selector.select_spec(state);
    assert(items.skip(1) =~= tail);
    assert(tail.skip(1) =~= empty);
    assert(run_results(reducer, state, empty) == Seq::<<S::Result as View>::V>::empty());
    assert(run_state(reducer, state, empty) == state);
    assert(run_results(reducer, state, tail) =~= seq![twice]);
    assert(run_state(reducer, state, tail) == state);
    assert(run_results(reducer, state, items) =~= seq![twice, twice]);
}

/// The worker that exclusively owns the state and the subscriber list.
///
/// Between two work items the state is present (`wf`); while a dispatch is
/// being applied it is transiently moved out and fed to the reducer. The
/// ghost fields record the initial state and every action reduced so far,
/// so that the owned state provably equals the fold of the dispatched
/// actions over the initial state.
pub struct StateWorker<State: View, Action: View, R: Reducer<State, Action>, Sub: Subscriber<
    State,
>> {
    pub root_reducer: R,
    pub state: Option<State>,
    pub subscribers: Vec<Sub>,
    pub init_state: Ghost<State::V>,
    pub history: Ghost<Seq<Action::V>>,
}

impl<State: View, Action: View, R: Reducer<State, Action>, Sub: Subscriber<State>> StateWorker<
    State,
    Action,
    R,
    Sub,
> {
    /// The state is present, and is exactly the fold of the dispatched
    /// actions over the initial state.
    pub open spec fn wf(&self) -> bool {
        &&& self.state is Some
        &&& self.state.unwrap()@ == apply_actions(
            self.root_reducer,
            self.init_state@,
            self.history@,
        )
    }

    /// The view of the owned state.
    pub open spec fn state_view(&self) -> State::V {
        self.state.unwrap()@
    }

    /// The observation histories of the registered subscribers.
    pub open spec fn observed(&self) -> Seq<Seq<State::V>> {
        observed_of(self.subscribers@)
    }

    /// A worker owning the given state, with no subscribers.
    pub fn new(root_reducer: R, state: State) -> (w: Self)
        ensures
            w.wf(),
            w.root_reducer == root_reducer,
            w.state_view() == state@,
            w.subscribers@ == Seq::<Sub>::empty(),
            w.history@ == Seq::<Action::V>::empty(),
            w.init_state@ == state@,
    {
        let ghost init = state@;
        StateWorker {
            root_reducer,
            state: Some(state),
            subscribers: Vec::new(),
            init_state: Ghost(init),
            history: Ghost(Seq::empty()),
        }
    }

    /// Apply one dispatched action: feed the owned state and the action to
    /// the reducer, own the result, then notify every subscriber with the
    /// new state, in registration order.
    pub fn handle_dispatch(&mut self, work: Dispatch<Action>)
        requires
            old(self).wf(),
        ensures
            final(self).wf(),
            final(self).root_reducer == old(self).root_reducer,
            final(self).init_state == old(self).init_state,
            final(self).history@ == old(self).history@.push(work.action@),
            final(self).state_view() == old(self).root_reducer.reduce_spec(
                old(self).state_view(),
                work.action@,
            ),
            final(self).observed() == old(self).observed().map_values(
                |o: Seq<State::V>| o.push(final(self).state_view()),
            ),
    {
        let ghost action_view = work.action@;
        let action = work.into_action();

        let old_state = self.state.take().unwrap();
        let new_state = self.root_reducer.reduce(old_state, action);
        self.state = Some(new_state);
        self.history = Ghost(self.history@.push(action_view));
        proof {
            lemma_apply_actions_push(
                self.root_reducer,
                self.init_state@,
                old(self).history@,
                action_view,
            );
        }

        let ghost pre = *self;
        let new_state_ref = self.state.as_ref().unwrap();
        let mut i: usize = 0;
        while i < self.subscribers.len()
            invariant
                i <= self.subscribers.len(),
                self.root_reducer == pre.root_reducer,
                self.state == pre.state,
                self.init_state == pre.init_state,
                self.history == pre.history,
                self.subscribers@.len() == pre.subscribers@.len(),
                new_state_ref@ == pre.state_view(),
                forall|j: int|
                    0 <= j < i ==> (#[trigger] self.subscribers@[j]).observed()
                        == pre.subscribers@[j].observed().push(pre.state_view()),
                forall|j: int| i <= j < pre.subscribers@.len() ==> self.subscribers@[j] == pre.subscribers@[j],
            decreases self.subscribers.len() - i,
        {
            self.subscribers[i].notify(new_state_ref);
            i = i + 1;
        }
        proof {
            assert(self.observed() =~= old(self).observed().map_values(
                |o: Seq<State::V>| o.push(self.state_view()),
            ));
        }
    }

    /// Execute one selection against the owned state; the state and the
    /// subscriber list are untouched.
    pub fn handle_select<S: Selector<State>>(&self, work: Select<State, S>) -> (r: S::Result)
        requires
            self.wf(),
        ensures
            r@ == work.selector.select_spec(self.state_view()),
    {
        let state = self.state.as_ref().unwrap();
        let selector = work.into_selector();
        selector.select(state)
    }

    /// Execute one work item of any kind: apply a dispatch, compute a
    /// selection (appending its result to `results`), or register a
    /// subscriber.
    pub fn handle_work<S: Selector<State>>(
        &mut self,
        work: Work<State, Action, S, Sub>,
        results: &mut Vec<S::Result>,
    )
        requires
            old(self).wf(),
        ensures
            final(self).wf(),
            final(self).root_reducer == old(self).root_reducer,
            match work {
                Work::Dispatch(d) => {
                    &&& final(self).state_view() == old(self).root_reducer.reduce_spec(
                        old(self).state_view(),
                        d.action@,
                    )
                    &&& final(self).history@ == old(self).history@.push(d.action@)
                    &&& final(self).observed() == old(self).observed().map_values(
                        |o: Seq<State::V>| o.push(final(self).state_view()),
                    )
                    &&& *final(results) == *old(results)
                },
                Work::Select(sel) => {
                    &&& *final(self) == *old(self)
                    &&& views_of(final(results)@) == views_of(old(results)@).push(
                        sel.selector.select_spec(old(self).state_view()),
                    )
                },
                Work::Subscribe(su) => {
                    &&& final(self).state == old(self).state
                    &&& final(self).history == old(self).history
                    &&& final(self).init_state == old(self).init_state
                    &&& final(self).subscribers@ == old(self).subscribers@.push(su.subscriber)
                    &&& *final(results) == *old(results)
                },
            },
    {
        match work {
            Work::Dispatch(d) => self.handle_dispatch(d),
            Work::Select(sel) => {
                let r = self.handle_select(sel);
                results.push(r);
                proof {
                    assert(views_of(results@) =~= views_of(old(results)@).push(results@.last()@));
                }
            },
            Work::Subscribe(su) => self.handle_subscribe(su),
        }
    }

    /// Drain the mailbox, processing every pending work item strictly in
    /// the order it was sent, and return the selection results in order.
    ///
    /// This is where the mailbox discipline pays off: the final state is
    /// the fold of all dispatched actions, every selection observes the
    /// state with exactly the dispatches ahead of it applied, and every
    /// subscriber is notified once per dispatch processed after its
    /// registration.
    pub fn run<S: Selector<State>>(
        &mut self,
        mailbox: &mut Mailbox<Work<State, Action, S, Sub>>,
    ) -> (results: Vec<S::Result>)
        requires
            old(self).wf(),
        ensures
            final(self).wf(),
            final(mailbox)@.len() == 0,
            final(self).root_reducer == old(self).root_reducer,
            final(self).state_view() == run_state(
                old(self).root_reducer,
                old(self).state_view(),
                old(mailbox)@,
            ),
            final(self).history@ == old(self).history@ + actions_of(old(mailbox)@),
            views_of(results@) == run_results(
                old(self).root_reducer,
                old(self).state_view(),
                old(mailbox)@,
            ),
            final(self).observed() == run_observed(
                old(self).root_reducer,
                old(self).state_view(),
                old(mailbox)@,
                old(self).observed(),
            ),
    {
        let mut results: Vec<S::Result> = Vec::new();
        let ghost reducer = self.root_reducer;
        let ghost state_goal = run_state(reducer, self.state_view(), mailbox@);
        let ghost results_goal = run_results(reducer, self.state_view(), mailbox@);
        let ghost observed_goal = run_observed(reducer, self.state_view(), mailbox@, self.observed());
        let ghost history_goal = self.history@ + actions_of(mailbox@);

        proof {
            assert(views_of(results@) =~= Seq::<<S::Result as View>::V>::empty());
        }

        while mailbox.len() > 0
            invariant
                self.wf(),
                self.root_reducer == reducer,
                run_state(reducer, self.state_view(), mailbox@) == state_goal,
                views_of(results@) + run_results(reducer, self.state_view(), mailbox@)
                    == results_goal,
                run_observed(reducer, self.state_view(), mailbox@, self.observed())
                    == observed_goal,
                self.history@ + actions_of(mailbox@) == history_goal,
            decreases mailbox@.len(),
        {
            let ghost items_pre = mailbox@;
            let ghost state_pre = self.state_view();
            let ghost results_pre = results@;
            let ghost obs_pre = self.observed();
            let work = mailbox.recv().unwrap();
            let ghost work_spec = work;
            self.handle_work(work, &mut results);
            proof {
                match work_spec {
                    Work::Dispatch(d) => {
                        assert(self.observed() =~= obs_pre.map_values(
                            |o: Seq<State::V>| o.push(reducer.reduce_spec(state_pre, d.action@)),
                        ));
                        assert(seq![d.action@] + actions_of(items_pre.skip(1)) + actions_of(
                            mailbox@,
                        ) =~= seq![d.action@] + (actions_of(items_pre.skip(1)) + actions_of(
                            mailbox@,
                        )));
                        assert(self.history@ + actions_of(mailbox@) =~= history_goal);
                    },
                    Work::Select(sel) => {
                        assert(views_of(results@) =~= views_of(results_pre).push(
                            sel.selector.select_spec(state_pre),
                        ));
                        assert(views_of(results@) + run_results(
                            reducer,
                            self.state_view(),
                            mailbox@,
                        ) =~= views_of(results_pre) + run_results(reducer, state_pre, items_pre));
                    },
                    Work::Subscribe(su) => {
                        assert(self.observed() =~= obs_pre.push(su.subscriber.observed()));
                    },
                }
            }
        }
        proof {
            assert(views_of(results@) + run_results(reducer, self.state_view(), mailbox@)
                =~= views_of(results@));
            assert(self.history@ + actions_of(mailbox@) =~= self.history@);
        }
        results
    }

    /// Append one subscriber to the subscriber list; the state is untouched.
    pub fn handle_subscribe(&mut self, work: Subscribe<Sub>)
        requires
            old(self).wf(),
        ensures
            final(self).wf(),
            final(self).root_reducer == old(self).root_reducer,
            final(self).state == old(self).state,
            final(self).init_state == old(self).init_state,
            final(self).history == old(self).history,
            final(self).subscribers@ == old(self).subscribers@.push(work.subscriber),
    {
        let subscriber = work.into_subscriber();
        self.subscribers.push(subscriber);
    }
}

} // verus!
