use redux_rs::Counter;
use redux_rs::CounterAction;
use redux_rs::CounterReducer;
use redux_rs::SilentSubscriber;
use redux_rs::Store;
use redux_rs::StoreApi;
use redux_rs::SumSubscriber;
use redux_rs::ValueSelector;

type PlainStore = Store<Counter, CounterAction, CounterReducer, SilentSubscriber<Counter>>;
type SummedStore = Store<Counter, CounterAction, CounterReducer, SumSubscriber>;

#[test]
fn store_counter_default_state() {
    let store = PlainStore::new(CounterReducer::new());
    assert_eq!(Counter::default(), store.state_cloned());
}

#[test]
fn store_counter_supplied_state() {
    let store = PlainStore::new_with_state(CounterReducer::new(), Counter::new(5));
    assert_eq!(Counter::new(5), store.state_cloned());
}

#[test]
fn store_counter_actions_cloned_state() {
    let mut store = PlainStore::new(CounterReducer::new());
    assert_eq!(Counter::new(42), store.state_cloned());

    store.dispatch(CounterAction::Increment);
    assert_eq!(Counter::new(43), store.state_cloned());

    store.dispatch(CounterAction::Increment);
    assert_eq!(Counter::new(44), store.state_cloned());

    store.dispatch(CounterAction::Decrement);
    assert_eq!(Counter::new(43), store.state_cloned());
}

#[test]
fn store_counter_actions_selector_struct() {
    let mut store = PlainStore::new(CounterReducer::new());
    assert_eq!(42, store.select(ValueSelector));

    store.dispatch(CounterAction::Increment);
    assert_eq!(43, store.select(ValueSelector));

    store.dispatch(CounterAction::Increment);
    assert_eq!(44, store.select(ValueSelector));

    store.dispatch(CounterAction::Decrement);
    assert_eq!(43, store.select(ValueSelector));
}

#[test]
fn store_counter_actions_selector_lambda() {
    let mut store = PlainStore::new(CounterReducer::new());
    assert_eq!(42, store.select(ValueSelector));

    store.dispatch(CounterAction::Increment);
    assert_eq!(43, store.select(ValueSelector));

    store.dispatch(CounterAction::Increment);
    assert_eq!(44, store.select(ValueSelector));

    store.dispatch(CounterAction::Decrement);
    assert_eq!(43, store.select(ValueSelector));
}

#[test]
fn mod_counter_default_state() {
    let store = PlainStore::new(CounterReducer::new());
    assert_eq!(Counter::default(), store.state_cloned());
}

#[test]
fn mod_counter_supplied_state() {
    let store = PlainStore::new_with_state(CounterReducer::new(), Counter::new(5));
    assert_eq!(Counter::new(5), store.state_cloned());
}

#[test]
fn mod_counter_actions_cloned_state() {
    let mut store = PlainStore::new(CounterReducer::new());
    assert_eq!(Counter::new(42), store.state_cloned());

    store.dispatch(CounterAction::Increment);
    assert_eq!(Counter::new(43), store.state_cloned());

    store.dispatch(CounterAction::Increment);
    assert_eq!(Counter::new(44), store.state_cloned());

    store.dispatch(CounterAction::Decrement);
    assert_eq!(Counter::new(43), store.state_cloned());
}

#[test]
fn mod_counter_actions_selector_struct() {
    let mut store = PlainStore::new(CounterReducer::new());
    assert_eq!(42, store.select(ValueSelector));

    store.dispatch(CounterAction::Increment);
    assert_eq!(43, store.select(ValueSelector));

    store.dispatch(CounterAction::Increment);
    assert_eq!(44, store.select(ValueSelector));

    store.dispatch(CounterAction::Decrement);
    assert_eq!(43, store.select(ValueSelector));
}

#[test]
fn mod_counter_actions_selector_lambda() {
    let mut store = PlainStore::new(CounterReducer::new());
    assert_eq!(42, store.select(ValueSelector));

    store.dispatch(CounterAction::Increment);
    assert_eq!(43, store.select(ValueSelector));

    store.dispatch(CounterAction::Increment);
    assert_eq!(44, store.select(ValueSelector));

    store.dispatch(CounterAction::Decrement);
    assert_eq!(43, store.select(ValueSelector));
}

#[test]
fn counter_subscribe() {
    let mut store = SummedStore::new(CounterReducer::new());
    assert_eq!(42, store.select(ValueSelector));

    // Count the total value of all changes
    store.subscribe(SumSubscriber::new());

    store.dispatch(CounterAction::Increment);
    store.dispatch(CounterAction::Increment);
    store.dispatch(CounterAction::Decrement);

    // Sum should be: 43 + 44 + 43 = 130
    assert_eq!(store.worker.subscribers[0].total(), 130);
}

#[test]
fn select_twice_equal_results() {
    let store = PlainStore::new_with_state(CounterReducer::new(), Counter::new(7));
    let first = store.select(ValueSelector);
    let second = store.select(ValueSelector);
    assert_eq!(first, second);
    assert_eq!(first, 7);
}
