use redux_rs::Counter;
use redux_rs::CounterAction;
use redux_rs::CounterReducer;
use redux_rs::Dispatch;
use redux_rs::Mailbox;
use redux_rs::RecordingSubscriber;
use redux_rs::Select;
use redux_rs::StateWorker;
use redux_rs::Subscribe;
use redux_rs::ValueSelector;
use redux_rs::Work;

type CounterWork = Work<Counter, CounterAction, ValueSelector, RecordingSubscriber>;

#[test]
fn work_items_carry_their_payload() {
    let dispatch: Dispatch<CounterAction> = Dispatch::new(CounterAction::Increment);
    assert_eq!(dispatch.into_action(), CounterAction::Increment);

    let select: Select<Counter, ValueSelector> = Select::new(ValueSelector);
    let _selector: ValueSelector = select.into_selector();

    let subscribe = Subscribe::new(RecordingSubscriber::new());
    let subscriber = subscribe.into_subscriber();
    assert!(subscriber.seen.is_empty());
}

#[test]
fn mailbox_is_first_in_first_out() {
    let mut mailbox: Mailbox<i64> = Mailbox::new();
    assert_eq!(mailbox.len(), 0);
    mailbox.send(10);
    mailbox.send(20);
    mailbox.send(30);
    assert_eq!(mailbox.len(), 3);
    assert_eq!(mailbox.recv(), Some(10));
    assert_eq!(mailbox.recv(), Some(20));
    assert_eq!(mailbox.recv(), Some(30));
    assert_eq!(mailbox.recv(), None);
}

#[test]
fn sequential_dispatches_fold_in_order() {
    // Dispatches drained from the mailbox are applied one by one, in send
    // order, with no step skipped or duplicated.
    let mut worker = StateWorker::new(CounterReducer::new(), Counter::new(0));
    let mut mailbox: Mailbox<CounterWork> = Mailbox::new();
    mailbox.send(Work::Dispatch(Dispatch::new(CounterAction::Increment)));
    mailbox.send(Work::Dispatch(Dispatch::new(CounterAction::Increment)));
    mailbox.send(Work::Dispatch(Dispatch::new(CounterAction::Decrement)));
    let results = worker.run(&mut mailbox);
    assert!(results.is_empty());
    assert_eq!(worker.state, Some(Counter::new(1)));
}

#[test]
fn select_observes_earlier_dispatches() {
    // A select sent after a dispatch observes that dispatch's effect; one
    // sent before it does not.
    let mut worker = StateWorker::new(CounterReducer::new(), Counter::new(0));
    let mut mailbox: Mailbox<CounterWork> = Mailbox::new();
    mailbox.send(Work::Select(Select::new(ValueSelector)));
    mailbox.send(Work::Dispatch(Dispatch::new(CounterAction::Increment)));
    mailbox.send(Work::Select(Select::new(ValueSelector)));
    mailbox.send(Work::Dispatch(Dispatch::new(CounterAction::Increment)));
    mailbox.send(Work::Select(Select::new(ValueSelector)));
    let results = worker.run(&mut mailbox);
    assert_eq!(results, vec![0, 1, 2]);
}

#[test]
fn subscriber_notified_once_per_later_dispatch() {
    // Subscribing before two dispatches yields exactly two notifications,
    // each with the state its dispatch produced, in dispatch order.
    let mut worker = StateWorker::new(CounterReducer::new(), Counter::new(0));
    let mut mailbox: Mailbox<CounterWork> = Mailbox::new();
    mailbox.send(Work::Subscribe(Subscribe::new(RecordingSubscriber::new())));
    mailbox.send(Work::Dispatch(Dispatch::new(CounterAction::Increment)));
    mailbox.send(Work::Dispatch(Dispatch::new(CounterAction::Decrement)));
    let results = worker.run(&mut mailbox);
    assert!(results.is_empty());
    assert_eq!(worker.subscribers.len(), 1);
    assert_eq!(worker.subscribers[0].seen, vec![1, 0]);
}

#[test]
fn select_twice_without_dispatch_is_stable() {
    let mut worker = StateWorker::new(CounterReducer::new(), Counter::new(5));
    let mut mailbox: Mailbox<CounterWork> = Mailbox::new();
    mailbox.send(Work::Select(Select::new(ValueSelector)));
    mailbox.send(Work::Select(Select::new(ValueSelector)));
    let results = worker.run(&mut mailbox);
    assert_eq!(results, vec![5, 5]);
    assert_eq!(worker.state, Some(Counter::new(5)));
}
