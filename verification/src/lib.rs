//! A predictable state container: a store holds a single state value,
//! actions dispatched to the store are folded into the state by a pure
//! reducer, and subscribers are notified after every transition.
//!
//! The store's engine is a worker that owns the state exclusively and
//! drains a first-in-first-out mailbox of work items, so that every
//! dispatch, selection and subscription is applied one at a time, in
//! arrival order. Middleware layers wrap a store's dispatch path to
//! intercept, transform, suppress or defer actions without the store
//! knowing about them.

mod counter;
mod middleware;
pub mod middlewares;
mod reducer;
mod selector;
mod store;
mod subscriber;

pub use counter::Counter;
pub use counter::CounterAction;
pub use counter::CounterReducer;
pub use counter::OnlyIncrementMiddleware;
pub use counter::RecordingSubscriber;
pub use counter::ReverseMiddleware;
pub use counter::SumSubscriber;
pub use counter::ValueSelector;
pub use counter::wrapping_sum;
pub use middleware::batch_dispatched;
pub use middleware::chain_notify;
pub use middleware::chain_state;
pub use middleware::chain_trace;
pub use middleware::cloned_view;
pub use middleware::lemma_batch_dispatched_concat;
pub use middleware::lemma_batch_dispatched_empty;
pub use middleware::lemma_batch_dispatched_single;
pub use middleware::lemma_chain_notify_append;
pub use middleware::lemma_chain_notify_congruence;
pub use middleware::lemma_chain_state_append;
pub use middleware::lemma_chain_state_congruence;
pub use middleware::forwarded_batch;
pub use middleware::lemma_chain_trace_append;
pub use middleware::lemma_chain_trace_congruence;
pub use middleware::lemma_forwarded_batch_congruence;
pub use middleware::lemma_forwarded_batch_push;
pub use middleware::MiddleWare;
pub use middleware::StoreApi;
pub use middleware::StoreWithMiddleware;
pub use reducer::apply_actions;
pub use reducer::lemma_apply_actions_push;
pub use reducer::Reducer;
pub use selector::Selector;
pub use store::actions_of;
pub use store::dispatch_states;
pub use store::lemma_dispatch_states_len;
pub use store::lemma_read_your_writes;
pub use store::lemma_run_observed_existing;
pub use store::lemma_run_state_is_fold;
pub use store::lemma_select_idempotent;
pub use store::lemma_subscribe_then_notifications;
pub use store::lemma_store_state_is_fold;
pub use store::observed_of;
pub use store::run_observed;
pub use store::run_results;
pub use store::run_state;
pub use store::views_of;
pub use store::Dispatch;
pub use store::Mailbox;
pub use store::Select;
pub use store::StateWorker;
pub use store::Store;
pub use store::Subscribe;
pub use store::Work;
pub use subscriber::SilentSubscriber;
pub use subscriber::Subscriber;
