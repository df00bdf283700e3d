use redux_rs::Counter;
use redux_rs::CounterAction;
use redux_rs::CounterReducer;
use redux_rs::RecordingSubscriber;
use redux_rs::Store;
use redux_rs::StoreApi;

type ObservedStore = Store<Counter, CounterAction, CounterReducer, RecordingSubscriber>;

#[test]
fn subscription_increment() {
    let mut store = ObservedStore::new_with_state(CounterReducer::new(), Counter::new(0));
    store.subscribe(RecordingSubscriber::new());
    store.dispatch(CounterAction::Increment);
    assert_eq!(store.worker.subscribers[0].seen, vec![1]);
}

#[test]
fn subscription_decrement() {
    let mut store = ObservedStore::new_with_state(CounterReducer::new(), Counter::new(0));
    store.subscribe(RecordingSubscriber::new());
    store.dispatch(CounterAction::Decrement);
    assert_eq!(store.worker.subscribers[0].seen, vec![-1]);
}

#[test]
fn subscription_sees_every_dispatch_in_order() {
    // A subscriber registered before three dispatches is notified exactly
    // three times, each time with the state that dispatch produced.
    let mut store = ObservedStore::new_with_state(CounterReducer::new(), Counter::new(0));
    store.subscribe(RecordingSubscriber::new());
    store.dispatch(CounterAction::Increment);
    store.dispatch(CounterAction::Increment);
    store.dispatch(CounterAction::Decrement);
    assert_eq!(store.worker.subscribers[0].seen, vec![1, 2, 1]);
}
