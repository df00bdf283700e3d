//! A counter store: the smallest complete instantiation of the library,
//! with reducers, selectors, subscribers and middleware over an integer
//! state.

use vstd::prelude::*;

use crate::middleware::lemma_batch_dispatched_empty;
use crate::middleware::lemma_batch_dispatched_single;
use crate::middleware::MiddleWare;
use crate::middleware::StoreApi;
use crate::reducer::Reducer;
use crate::selector::Selector;
use crate::store::views_of;
use crate::subscriber::Subscriber;

verus! {

/// A counter state: the simplest state a store can manage.
#[derive(Clone, Copy, Debug, PartialEq, Eq, Structural)]
pub struct Counter {
    pub value: i64,
}

impl Counter {
    pub fn new(value: i64) -> (r: Self)
        ensures
            r == (Counter { value }),
    {
        Counter { value }
    }
}

impl View for Counter {
    type V = Counter;

    open spec fn view(&self) -> Counter {
        *self
    }
}

impl Default for Counter {
    /// The counter a store starts from when none is supplied.
    fn default() -> (r: Self)
        ensures
            r == (Counter { value: 42 }),
    {
        Counter { value: 42 }
    }
}

/// An action on the counter.
#[derive(Clone, Copy, Debug, PartialEq, Eq, Structural)]
pub enum CounterAction {
    Increment,
    Decrement,
}

impl View for CounterAction {
    type V = CounterAction;

    open spec fn view(&self) -> CounterAction {
        *self
    }
}

/// A reducer stepping the counter up or down by a fixed amount, with
/// wrap-around at the ends of the `i64` range.
#[derive(Clone, Copy, Debug, PartialEq, Eq, Structural)]
pub struct CounterReducer {
    pub step: i64,
}

impl CounterReducer {
    /// The reducer that counts in steps of one.
    pub fn new() -> (r: Self)
        ensures
            r == (CounterReducer { step: 1i64 }),
    {
        CounterReducer { step: 1 }
    }
}

impl Reducer<Counter, CounterAction> for CounterReducer {
    open spec fn reduce_spec(&self, state: Counter, action: CounterAction) -> Counter {
        match action {
            CounterAction::Increment => Counter { value: state.value.wrapping_add(self.step) },
            CounterAction::Decrement => Counter { value: state.value.wrapping_sub(self.step) },
        }
    }

    fn reduce(&self, state: Counter, action: CounterAction) -> Counter {
        match action {
            CounterAction::Increment => Counter { value: state.value.wrapping_add(self.step) },
            CounterAction::Decrement => Counter { value: state.value.wrapping_sub(self.step) },
        }
    }
}

/// The wrapping sum of the counter values in a notification history.
pub open spec fn wrapping_sum(history: Seq<Counter>) -> i64
    decreases history.len(),
{
    if history.len() == 0 {
        0
    } else {
        wrapping_sum(history.drop_last()).wrapping_add(history.last().value)
    }
}

/// A subscriber that adds up the counter values it is notified with.
pub struct SumSubscriber {
    sum: i64,
    history: Ghost<Seq<Counter>>,
}

impl SumSubscriber {
    /// The running total is always the wrapping sum of the history.
    #[verifier::type_invariant]
    spec fn total_matches_history(self) -> bool {
        self.sum == wrapping_sum(self.history@)
    }

    /// A sum subscriber starting from zero.
    pub fn new() -> (r: Self)
        ensures
            r.observed() == Seq::<Counter>::empty(),
    {
        SumSubscriber { sum: 0, history: Ghost(Seq::empty()) }
    }

    /// The wrapping sum of every counter value this subscriber has been
    /// notified with.
    pub fn total(&self) -> (r: i64)
        ensures
            r == wrapping_sum(self.observed()),
    {
        proof {
            use_type_invariant(&*self);
        }
        self.sum
    }
}

impl Subscriber<Counter> for SumSubscriber {
    closed spec fn observed(&self) -> Seq<Counter> {
        self.history@
    }

    fn notify(&mut self, state: &Counter) {
        proof {
            use_type_invariant(&*self);
        }
        let total = self.sum.wrapping_add(state.value);
        let ghost history = self.history@.push(*state);
        proof {
            assert(history.drop_last() =~= self.history@);
            assert(history.last() == *state);
        }
        *self = SumSubscriber { sum: total, history: Ghost(history) };
    }
}

/// A subscriber that records every counter value it is notified with, in
/// notification order.
pub struct RecordingSubscriber {
    pub seen: Vec<i64>,
}

impl RecordingSubscriber {
    /// A recording subscriber that has seen nothing yet.
    pub fn new() -> (r: Self)
        ensures
            r.seen@ == Seq::<i64>::empty(),
            r.observed() == Seq::<Counter>::empty(),
    {
        let r = RecordingSubscriber { seen: Vec::new() };
        proof {
            assert(r.observed() =~= Seq::<Counter>::empty());
        }
        r
    }
}

impl Subscriber<Counter> for RecordingSubscriber {
    open spec fn observed(&self) -> Seq<Counter> {
        self.seen@.map_values(|v: i64| Counter { value: v })
    }

    fn notify(&mut self, state: &Counter) {
        self.seen.push(state.value);
        proof {
            assert(self.observed() =~= old(self).observed().push(*state));
        }
    }
}

/// The inner action a counter action is turned into when it is reversed.
pub open spec fn reversed(action: CounterAction) -> CounterAction {
    match action {
        CounterAction::Increment => CounterAction::Decrement,
        CounterAction::Decrement => CounterAction::Increment,
    }
}

/// A middleware that transforms every counter action into its opposite
/// before forwarding it.
pub struct ReverseMiddleware;

impl<Inner, Sub> MiddleWare<Counter, CounterAction, Inner, CounterAction, Sub> for ReverseMiddleware
    where Sub: Subscriber<Counter>, Inner: StoreApi<Counter, CounterAction, Sub> {
    open spec fn forwards(&self, action: CounterAction) -> Seq<CounterAction> {
        seq![reversed(action)]
    }

    open spec fn trace_of(&self, inner: Inner, action: CounterAction) -> Seq<Seq<char>> {
        inner.trace_model(reversed(action))
    }

    open spec fn seeds(&self) -> Seq<CounterAction> {
        Seq::empty()
    }

    proof fn trace_of_congruence(&self, i1: Inner, i2: Inner, action: CounterAction) {
        assert(i1.trace_model(reversed(action)) == i2.trace_model(reversed(action)));
    }

    fn init(&mut self, inner: &mut Inner) {
        proof {
            lemma_batch_dispatched_empty(*inner);
        }
    }

    fn dispatch(&mut self, action: CounterAction, inner: &mut Inner, trace: &mut Vec<String>) {
        let ghost pre_inner = *inner;
        let flipped = match action {
            CounterAction::Increment => CounterAction::Decrement,
            CounterAction::Decrement => CounterAction::Increment,
        };
        inner.dispatch(flipped, trace);
        proof {
            lemma_batch_dispatched_single(pre_inner, *inner, reversed(action));
        }
    }
}

/// A middleware that lets increments through and suppresses every other
/// action.
pub struct OnlyIncrementMiddleware;

impl<Inner, Sub> MiddleWare<
    Counter,
    CounterAction,
    Inner,
    CounterAction,
    Sub,
> for OnlyIncrementMiddleware where
    Sub: Subscriber<Counter>,
    Inner: StoreApi<Counter, CounterAction, Sub>,
{
    open spec fn forwards(&self, action: CounterAction) -> Seq<CounterAction> {
        match action {
            CounterAction::Increment => seq![CounterAction::Increment],
            CounterAction::Decrement => Seq::empty(),
        }
    }

    open spec fn trace_of(&self, inner: Inner, action: CounterAction) -> Seq<Seq<char>> {
        match action {
            CounterAction::Increment => inner.trace_model(CounterAction::Increment),
            CounterAction::Decrement => Seq::empty(),
        }
    }

    open spec fn seeds(&self) -> Seq<CounterAction> {
        Seq::empty()
    }

    proof fn trace_of_congruence(&self, i1: Inner, i2: Inner, action: CounterAction) {
        assert(i1.trace_model(CounterAction::Increment) == i2.trace_model(
            CounterAction::Increment,
        ));
    }

    fn init(&mut self, inner: &mut Inner) {
        proof {
            lemma_batch_dispatched_empty(*inner);
        }
    }

    fn dispatch(&mut self, action: CounterAction, inner: &mut Inner, trace: &mut Vec<String>) {
        let ghost pre_inner = *inner;
        match action {
            CounterAction::Increment => {
                inner.dispatch(CounterAction::Increment, trace);
                proof {
                    lemma_batch_dispatched_single(pre_inner, *inner, CounterAction::Increment);
                }
            },
            CounterAction::Decrement => {
                proof {
                    lemma_batch_dispatched_empty(*inner);
                    assert(views_of(trace@) =~= views_of(trace@) + Seq::<Seq<char>>::empty());
                }
            },
        }
    }
}

/// The selector reading the counter's value.
pub struct ValueSelector;

impl Selector<Counter> for ValueSelector {
    type Result = i64;

    open spec fn select_spec(&self, state: Counter) -> i64 {
        state.value
    }

    fn select(&self, state: &Counter) -> i64 {
        state.value
    }
}

} // verus!
