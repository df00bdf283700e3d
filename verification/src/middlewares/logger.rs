//! A middleware that logs every dispatched action, before and after
//! forwarding it.

use vstd::prelude::*;
use vstd::string::StringExecFns;

use crate::middleware::chain_state;
use crate::middleware::lemma_batch_dispatched_empty;
use crate::middleware::lemma_batch_dispatched_single;
use crate::middleware::MiddleWare;
use crate::middleware::StoreApi;
use crate::middleware::StoreWithMiddleware;
use crate::reducer::Reducer;
use crate::store::views_of;
use crate::subscriber::Subscriber;

verus! {

/// An action that can describe itself in one line of text, for logging.
pub trait LogMessage: View + Sized {
    /// The text of an action, as a function of its view.
    spec fn text_spec(v: Self::V) -> Seq<char>;

    /// The text of this action.
    fn text(&self) -> (r: String)
        ensures
            r@ == Self::text_spec(self@),
    ;
}

/// The line the logger writes before forwarding an action.
pub open spec fn before_line(prefix: Seq<char>, text: Seq<char>) -> Seq<char> {
    "["@ + prefix + "] Before dispatching log message: \""@ + text + "\""@
}

/// The line the logger writes after the forwarded dispatch returned.
pub open spec fn after_line(prefix: Seq<char>, text: Seq<char>) -> Seq<char> {
    "["@ + prefix + "] After dispatching log message: \""@ + text + "\""@
}

/// The severity the logger's lines are meant to be written out at by the
/// runtime that owns the log sink.
#[derive(Clone, Copy, Debug, PartialEq, Eq, Structural)]
pub enum LogLevel {
    Error,
    Warn,
    Info,
    Debug,
    Trace,
}

/// A middleware that logs every action dispatched through it: one line
/// before it forwards the action unchanged, and one line after the inner
/// dispatch has fully completed. Its prefix tells stacked loggers apart;
/// its level says how severe the runtime should consider the lines.
pub struct LoggerMiddleware {
    pub prefix: String,
    pub level: LogLevel,
}

impl LoggerMiddleware {
    /// A logger tagging every line with the given prefix, at the default
    /// severity.
    pub fn new(prefix: String) -> (r: Self)
        ensures
            r.prefix@ == prefix@,
            r.level == LogLevel::Info,
    {
        LoggerMiddleware { prefix, level: LogLevel::Info }
    }

    /// A logger tagging every line with the given prefix, whose lines are
    /// meant for the given severity.
    pub fn with_level(prefix: String, level: LogLevel) -> (r: Self)
        ensures
            r.prefix@ == prefix@,
            r.level == level,
    {
        LoggerMiddleware { prefix, level }
    }

    /// Format one log line around the given action text.
    fn line(&self, marker: &str, text: &str) -> (r: String)
        ensures
            r@ == "["@ + self.prefix@ + marker@ + text@ + "\""@,
    {
        let mut line = String::from_str("[");
        line.append(self.prefix.as_str());
        line.append(marker);
        line.append(text);
        line.append("\"");
        line
    }
}

impl<State, Action, Inner, Sub> MiddleWare<State, Action, Inner, Action, Sub> for LoggerMiddleware
    where
    State: View,
    Action: View + LogMessage,
    Sub: Subscriber<State>,
    Inner: StoreApi<State, Action, Sub>,
{
    /// The logger forwards every action unchanged.
    open spec fn forwards(&self, action: Action::V) -> Seq<Action::V> {
        seq![action]
    }

    /// One dispatch writes the before line, then whatever the inner store
    /// writes, then the after line.
    open spec fn trace_of(&self, inner: Inner, action: Action::V) -> Seq<Seq<char>> {
        seq![before_line(self.prefix@, Action::text_spec(action))] + inner.trace_model(action)
            + seq![after_line(self.prefix@, Action::text_spec(action))]
    }

    /// The logger seeds nothing at wrap time.
    open spec fn seeds(&self) -> Seq<Action::V> {
        Seq::empty()
    }

    proof fn trace_of_congruence(&self, i1: Inner, i2: Inner, action: Action::V) {
        assert(i1.trace_model(action) == i2.trace_model(action));
    }

    fn init(&mut self, inner: &mut Inner) {
        proof {
            lemma_batch_dispatched_empty(*inner);
        }
    }

    fn dispatch(&mut self, action: Action, inner: &mut Inner, trace: &mut Vec<String>) {
        let ghost action_view = action@;
        let ghost pre_inner = *inner;
        let ghost trace0 = views_of(trace@);

        let text = action.text();
        let before = self.line("] Before dispatching log message: \"", text.as_str());
        trace.push(before);
        proof {
            assert(views_of(trace@) =~= trace0.push(
                before_line(self.prefix@, Action::text_spec(action_view)),
            ));
        }

        inner.dispatch(action, trace);

        let after = self.line("] After dispatching log message: \"", text.as_str());
        trace.push(after);
        proof {
            lemma_batch_dispatched_single(pre_inner, *inner, action_view);
            let text_view = Action::text_spec(action_view);
            let head = before_line(self.prefix@, text_view);
            let tail = after_line(self.prefix@, text_view);
            let forwarded = pre_inner.trace_model(action_view);
            assert(after@ =~= tail);
            assert(views_of(trace@) =~= (trace0.push(head) + forwarded).push(tail));
            assert((trace0.push(head) + forwarded).push(tail) =~= trace0 + (seq![head] + forwarded
                + seq![tail]));
            assert(views_of(trace@) =~= trace0 + self.trace_of(pre_inner, action_view));
        }
    }
}

/// The composition law for stacked middleware, read off an ordered
/// side-effect log: wrapping a store with logger `M1` and then logger `M2`
/// and dispatching one action writes `M2`'s before line, then `M1`'s
/// before line, then `M1`'s after line, then `M2`'s after line — the
/// last-wrapped middleware runs first on the way in — while the action
/// itself steps the wrapped store by that store's own transition.
pub proof fn lemma_logger_nesting<State, Action, Inner, Sub>(
    chain: StoreWithMiddleware<
        StoreWithMiddleware<Inner, LoggerMiddleware, State, Action, Action, Sub>,
        LoggerMiddleware,
        State,
        Action,
        Action,
        Sub,
    >,
    action: Action::V,
) where
    State: View,
    Action: View + LogMessage,
    Sub: Subscriber<State>,
    Inner: StoreApi<State, Action, Sub>,

    requires
        forall|a: Action::V| #[trigger] chain.inner.inner.trace_model(a) == Seq::<
            Seq<char>,
        >::empty(),
    ensures
        chain.trace_model(action) == seq![
            before_line(chain.middleware.prefix@, Action::text_spec(action)),
            before_line(chain.inner.middleware.prefix@, Action::text_spec(action)),
            after_line(chain.inner.middleware.prefix@, Action::text_spec(action)),
            after_line(chain.middleware.prefix@, Action::text_spec(action)),
        ],
        forall|s: State::V| #[trigger] chain.transition(s, action) == chain.inner.inner.transition(
            s,
            action,
        ),
{
    let text = Action::text_spec(action);
    let outer = chain.middleware.prefix@;
    let inner_prefix = chain.inner.middleware.prefix@;
    assert(chain.inner.trace_model(action) =~= seq![
        before_line(inner_prefix, text),
        after_line(inner_prefix, text),
    ]);
    assert(chain.trace_model(action) =~= seq![
        before_line(outer, text),
        before_line(inner_prefix, text),
        after_line(inner_prefix, text),
        after_line(outer, text),
    ]);
    let single: Seq<Action::V> = seq![action];
    let empty: Seq<Action::V> = Seq::empty();
    assert(single.skip(1) =~= empty);
    assert forall|s: State::V| #[trigger]
        chain.transition(s, action) == chain.inner.inner.transition(s, action) by {
        let mid = chain.inner.transition(s, action);
        assert(chain_state(chain.inner, mid, empty) == mid);
        assert(chain.transition(s, action) == mid);
        let base = chain.inner.inner.transition(s, action);
        assert(chain_state(chain.inner.inner, base, empty) == base);
        assert(mid == base);
    }
}

/// A state that accumulates log messages: the simplest state to observe a
/// logging pipeline with.
pub struct LogStore {
    pub logs: Vec<String>,
}

impl View for LogStore {
    type V = Seq<Seq<char>>;

    open spec fn view(&self) -> Seq<Seq<char>> {
        views_of(self.logs@)
    }
}

impl Default for LogStore {
    /// An empty log.
    fn default() -> (r: Self)
        ensures
            r@ == Seq::<Seq<char>>::empty(),
    {
        let r = LogStore { logs: Vec::new() };
        proof {
            assert(r@ =~= Seq::<Seq<char>>::empty());
        }
        r
    }
}

impl Clone for LogStore {
    fn clone(&self) -> (r: Self)
        ensures
            r@ == self@,
    {
        let r = LogStore { logs: self.logs.clone() };
        proof {
            assert(r@ =~= self@);
        }
        r
    }
}

/// An action carrying one log message.
pub struct Log(pub String);

impl View for Log {
    type V = Seq<char>;

    open spec fn view(&self) -> Seq<char> {
        self.0@
    }
}

impl LogMessage for Log {
    open spec fn text_spec(v: Seq<char>) -> Seq<char> {
        v
    }

    fn text(&self) -> String {
        self.0.clone()
    }
}

/// The reducer that appends every dispatched message to the log.
pub struct LogReducer;

impl Reducer<LogStore, Log> for LogReducer {
    open spec fn reduce_spec(&self, state: Seq<Seq<char>>, action: Seq<char>) -> Seq<Seq<char>> {
        state.push(action)
    }

    fn reduce(&self, state: LogStore, action: Log) -> LogStore {
        let ghost state_view = state@;
        let ghost action_view = action@;
        let mut logs = state.logs;
        logs.push(action.0);
        let r = LogStore { logs };
        proof {
            assert(r@ =~= state_view.push(action_view));
        }
        r
    }
}

} // verus!
