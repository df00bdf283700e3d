use redux_rs::middlewares::logger::Log;
use redux_rs::middlewares::logger::LogLevel;
use redux_rs::middlewares::logger::LogReducer;
use redux_rs::middlewares::logger::LogStore;
use redux_rs::middlewares::logger::LoggerMiddleware;
use redux_rs::SilentSubscriber;
use redux_rs::Store;
use redux_rs::StoreApi;

type BaseStore = Store<LogStore, Log, LogReducer, SilentSubscriber<LogStore>>;

#[test]
fn logger_middleware() {
    let base = BaseStore::new(LogReducer);
    let log_middleware = LoggerMiddleware::new(String::from("log"));
    let mut store = base.wrap::<LoggerMiddleware, Log>(log_middleware);
    let mut logs: Vec<String> = Vec::new();

    store.dispatch(Log(String::from("Log 1")), &mut logs);

    assert_eq!(
        logs,
        vec![
            "[log] Before dispatching log message: \"Log 1\"".to_string(),
            "[log] After dispatching log message: \"Log 1\"".to_string(),
        ]
    );

    store.dispatch(Log(String::from("Log 2")), &mut logs);

    assert_eq!(
        logs,
        vec![
            "[log] Before dispatching log message: \"Log 1\"".to_string(),
            "[log] After dispatching log message: \"Log 1\"".to_string(),
            "[log] Before dispatching log message: \"Log 2\"".to_string(),
            "[log] After dispatching log message: \"Log 2\"".to_string(),
        ]
    );
}

#[test]
fn logger_level_is_kept() {
    let debug_logger = LoggerMiddleware::with_level(String::from("log"), LogLevel::Debug);
    assert_eq!(debug_logger.level, LogLevel::Debug);
    assert_eq!(LoggerMiddleware::new(String::from("log")).level, LogLevel::Info);

    // The level does not change the lines themselves
    let base = BaseStore::new(LogReducer);
    let mut store = base.wrap::<LoggerMiddleware, Log>(debug_logger);
    let mut logs: Vec<String> = Vec::new();
    store.dispatch(Log(String::from("Log 1")), &mut logs);
    assert_eq!(
        logs,
        vec![
            "[log] Before dispatching log message: \"Log 1\"".to_string(),
            "[log] After dispatching log message: \"Log 1\"".to_string(),
        ]
    );
}

#[test]
fn logger_nested_middlewares() {
    let base = BaseStore::new(LogReducer);
    let log_middleware_1 = LoggerMiddleware::new(String::from("middleware_1"));
    let log_middleware_2 = LoggerMiddleware::new(String::from("middleware_2"));

    let store = base.wrap::<LoggerMiddleware, Log>(log_middleware_1);
    let mut store = store.wrap::<LoggerMiddleware, Log>(log_middleware_2);
    let mut logs: Vec<String> = Vec::new();

    store.dispatch(Log(String::from("Log 1")), &mut logs);

    assert_eq!(
        logs,
        vec![
            "[middleware_2] Before dispatching log message: \"Log 1\"".to_string(),
            "[middleware_1] Before dispatching log message: \"Log 1\"".to_string(),
            "[middleware_1] After dispatching log message: \"Log 1\"".to_string(),
            "[middleware_2] After dispatching log message: \"Log 1\"".to_string(),
        ]
    );

    store.dispatch(Log(String::from("Log 2")), &mut logs);

    assert_eq!(
        logs,
        vec![
            "[middleware_2] Before dispatching log message: \"Log 1\"".to_string(),
            "[middleware_1] Before dispatching log message: \"Log 1\"".to_string(),
            "[middleware_1] After dispatching log message: \"Log 1\"".to_string(),
            "[middleware_2] After dispatching log message: \"Log 1\"".to_string(),
            "[middleware_2] Before dispatching log message: \"Log 2\"".to_string(),
            "[middleware_1] Before dispatching log message: \"Log 2\"".to_string(),
            "[middleware_1] After dispatching log message: \"Log 2\"".to_string(),
            "[middleware_2] After dispatching log message: \"Log 2\"".to_string(),
        ]
    );

    // Both messages reached the innermost store through both layers
    assert_eq!(
        store.inner.inner.state().logs,
        vec!["Log 1".to_string(), "Log 2".to_string()]
    );
}
