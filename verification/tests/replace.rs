use redux_rs::Counter;
use redux_rs::CounterAction;
use redux_rs::CounterReducer;
use redux_rs::SilentSubscriber;
use redux_rs::Store;

type PlainStore = Store<Counter, CounterAction, CounterReducer, SilentSubscriber<Counter>>;

#[test]
fn replace_increment() {
    let mut store = PlainStore::new_with_state(CounterReducer::new(), Counter::new(0));
    store.dispatch(CounterAction::Increment);
    assert_eq!(store.state().value, 1);
    store.replace_reducer(CounterReducer { step: 2 });
    store.dispatch(CounterAction::Increment);
    assert_eq!(store.state().value, 3);
}

#[test]
fn replace_decrement() {
    let mut store = PlainStore::new_with_state(CounterReducer::new(), Counter::new(0));
    store.dispatch(CounterAction::Decrement);
    assert_eq!(store.state().value, -1);
    store.replace_reducer(CounterReducer { step: 2 });
    store.dispatch(CounterAction::Decrement);
    assert_eq!(store.state().value, -3);
}
