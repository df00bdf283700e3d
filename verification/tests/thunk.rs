use redux_rs::middlewares::thunk::ActionOrThunk;
use redux_rs::middlewares::thunk::LoadUsersThunk;
use redux_rs::middlewares::thunk::ThunkMiddleware;
use redux_rs::middlewares::thunk::User;
use redux_rs::middlewares::thunk::UserAction;
use redux_rs::middlewares::thunk::UserReducer;
use redux_rs::middlewares::thunk::UserState;
use redux_rs::middlewares::thunk::UsersSelector;
use redux_rs::SilentSubscriber;
use redux_rs::Store;
use redux_rs::StoreApi;
use redux_rs::StoreWithMiddleware;

type BaseStore = Store<UserState, UserAction, UserReducer, SilentSubscriber<UserState>>;
type UserStoreWithThunks = StoreWithMiddleware<
    BaseStore,
    ThunkMiddleware<LoadUsersThunk>,
    UserState,
    UserAction,
    ActionOrThunk<UserAction, LoadUsersThunk>,
    SilentSubscriber<UserState>,
>;

#[test]
fn load_users_thunk() {
    let base = BaseStore::new(UserReducer);
    let mut store: UserStoreWithThunks = StoreWithMiddleware::wrap_deferred(base);
    let mut trace: Vec<String> = Vec::new();

    store.dispatch(ActionOrThunk::Thunk(LoadUsersThunk), &mut trace);

    // The deferred unit has not run yet: no users are loaded
    let users = store.select(UsersSelector);
    assert_eq!(users.0, vec![]);

    // Run the deferred work the dispatch put aside
    store.run_pending(&mut trace);

    let users = store.select(UsersSelector);
    assert_eq!(
        users.0,
        vec![
            User { id: 0, name: "John Doe".to_string() },
            User { id: 1, name: "Jane Doe".to_string() },
        ]
    );
}

#[test]
fn load_users_fn_thunk() {
    let base = BaseStore::new(UserReducer);
    let mut store: UserStoreWithThunks = StoreWithMiddleware::wrap_deferred(base);
    let mut trace: Vec<String> = Vec::new();

    store.dispatch(ActionOrThunk::Thunk(LoadUsersThunk), &mut trace);

    let users = store.select(UsersSelector);
    assert_eq!(users.0, vec![]);

    store.run_pending(&mut trace);

    let users = store.select(UsersSelector);
    assert_eq!(
        users.0,
        vec![
            User { id: 0, name: "John Doe".to_string() },
            User { id: 1, name: "Jane Doe".to_string() },
        ]
    );
}

#[test]
fn dispatched_thunks_are_retained_until_run() {
    let base = BaseStore::new(UserReducer);
    let mut store: UserStoreWithThunks = StoreWithMiddleware::wrap_deferred(base);
    let mut trace: Vec<String> = Vec::new();

    store.dispatch(ActionOrThunk::Thunk(LoadUsersThunk), &mut trace);
    store.dispatch(ActionOrThunk::Thunk(LoadUsersThunk), &mut trace);

    // Both deferred units are held, oldest first, until the runtime asks
    let pending = store.middleware.take_pending();
    assert_eq!(pending.len(), 2);
}

#[test]
fn plain_action_through_thunk_middleware() {
    let base = BaseStore::new(UserReducer);
    let mut store: UserStoreWithThunks = StoreWithMiddleware::wrap_deferred(base);
    let mut trace: Vec<String> = Vec::new();

    let users = vec![User { id: 9, name: "Mary Major".to_string() }];
    store.dispatch(
        ActionOrThunk::Action(UserAction::UsersLoaded { users }),
        &mut trace,
    );

    let loaded = store.select(UsersSelector);
    assert_eq!(loaded.0, vec![User { id: 9, name: "Mary Major".to_string() }]);
}
