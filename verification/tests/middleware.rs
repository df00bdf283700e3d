use redux_rs::Counter;
use redux_rs::CounterAction;
use redux_rs::CounterReducer;
use redux_rs::OnlyIncrementMiddleware;
use redux_rs::ReverseMiddleware;
use redux_rs::SilentSubscriber;
use redux_rs::Store;
use redux_rs::StoreApi;
use redux_rs::ValueSelector;

type PlainStore = Store<Counter, CounterAction, CounterReducer, SilentSubscriber<Counter>>;

#[test]
fn reverse_middleware_increment() {
    let store = PlainStore::new_with_state(CounterReducer::new(), Counter::new(0));
    let mut store = store.wrap::<ReverseMiddleware, CounterAction>(ReverseMiddleware);
    let mut trace: Vec<String> = Vec::new();
    store.dispatch(CounterAction::Increment, &mut trace);
    assert_eq!(store.select(ValueSelector), -1);
}

#[test]
fn reverse_middleware_decrement() {
    let store = PlainStore::new_with_state(CounterReducer::new(), Counter::new(0));
    let mut store = store.wrap::<ReverseMiddleware, CounterAction>(ReverseMiddleware);
    let mut trace: Vec<String> = Vec::new();
    store.dispatch(CounterAction::Decrement, &mut trace);
    assert_eq!(store.select(ValueSelector), 1);
}

#[test]
fn only_increment_middleware_increment() {
    let store = PlainStore::new_with_state(CounterReducer::new(), Counter::new(0));
    let mut store = store.wrap::<OnlyIncrementMiddleware, CounterAction>(OnlyIncrementMiddleware);
    let mut trace: Vec<String> = Vec::new();
    store.dispatch(CounterAction::Increment, &mut trace);
    assert_eq!(store.select(ValueSelector), 1);
}

#[test]
fn only_increment_middleware_decrement() {
    let store = PlainStore::new_with_state(CounterReducer::new(), Counter::new(0));
    let mut store = store.wrap::<OnlyIncrementMiddleware, CounterAction>(OnlyIncrementMiddleware);
    let mut trace: Vec<String> = Vec::new();
    store.dispatch(CounterAction::Decrement, &mut trace);
    assert_eq!(store.select(ValueSelector), 0);
}
