use redux_rs::Counter;
use redux_rs::CounterAction;
use redux_rs::CounterReducer;
use redux_rs::RecordingSubscriber;
use redux_rs::SilentSubscriber;
use redux_rs::Store;
use redux_rs::StoreApi;
use redux_rs::ValueSelector;

type PlainStore = Store<Counter, CounterAction, CounterReducer, SilentSubscriber<Counter>>;
type ObservedStore = Store<Counter, CounterAction, CounterReducer, RecordingSubscriber>;

#[test]
fn fn_selector() {
    // Create a new store with value 42
    let mut store = PlainStore::new_with_state(CounterReducer::new(), Counter::new(42));

    // Verify that the current value is 42
    assert_eq!(store.select(ValueSelector), 42);

    // Dispatch an increment action, the new value should be 43
    store.dispatch(CounterAction::Increment);
    assert_eq!(store.select(ValueSelector), 43);

    // Dispatch another increment action, the new value should be 44
    store.dispatch(CounterAction::Increment);
    assert_eq!(store.select(ValueSelector), 44);

    // Dispatch a decrement action, the new value should be 43
    store.dispatch(CounterAction::Decrement);
    assert_eq!(store.select(ValueSelector), 43);
}

#[test]
fn closure_selector() {
    let mut store = PlainStore::new_with_state(CounterReducer::new(), Counter::new(42));

    assert_eq!(store.select(ValueSelector), 42);

    store.dispatch(CounterAction::Increment);
    assert_eq!(store.select(ValueSelector), 43);

    store.dispatch(CounterAction::Increment);
    assert_eq!(store.select(ValueSelector), 44);

    store.dispatch(CounterAction::Decrement);
    assert_eq!(store.select(ValueSelector), 43);
}

#[test]
fn trait_selector() {
    let mut store = PlainStore::new_with_state(CounterReducer::new(), Counter::new(42));

    assert_eq!(store.select(ValueSelector), 42);

    store.dispatch(CounterAction::Increment);
    assert_eq!(store.select(ValueSelector), 43);

    store.dispatch(CounterAction::Increment);
    assert_eq!(store.select(ValueSelector), 44);

    store.dispatch(CounterAction::Decrement);
    assert_eq!(store.select(ValueSelector), 43);
}

#[test]
fn subscribe_to_updates() {
    let mut store = ObservedStore::new_with_state(CounterReducer::new(), Counter::new(42));

    // Subscribe to every update
    store.subscribe(RecordingSubscriber::new());

    assert_eq!(store.select(ValueSelector), 42);

    store.dispatch(CounterAction::Increment);
    assert_eq!(store.select(ValueSelector), 43);

    store.dispatch(CounterAction::Increment);
    assert_eq!(store.select(ValueSelector), 44);

    store.dispatch(CounterAction::Decrement);
    assert_eq!(store.select(ValueSelector), 43);

    // The subscriber observed each new state, in dispatch order
    assert_eq!(store.worker.subscribers[0].seen, vec![43, 44, 43]);
}

#[test]
fn increment_increment_decrement_reaches_one() {
    // Initial state 0, reducer stepping by one
    let mut store = PlainStore::new_with_state(CounterReducer::new(), Counter::new(0));

    store.dispatch(CounterAction::Increment);
    store.dispatch(CounterAction::Increment);
    store.dispatch(CounterAction::Decrement);

    assert_eq!(store.state().value, 1);
}
