use bootcore::config::load_config;
use bootcore::pool::PoolModel;
use bootcore::state::{build_state, create_pool};

fn s(text: &str) -> String {
    text.to_string()
}

#[test]
fn pool_grants_up_to_bound_then_blocks() {
    let mut pool = PoolModel::new(3);
    assert!(pool.try_acquire());
    assert!(pool.try_acquire());
    assert!(pool.try_acquire());
    // Every connection is lent out: the fourth acquisition is not granted.
    assert!(!pool.try_acquire());
    assert_eq!(pool.lent(), 3);
    // One holder releases: the blocked acquisition now succeeds.
    pool.release();
    assert!(pool.try_acquire());
    assert_eq!(pool.lent(), 3);
    assert_eq!(pool.max_size(), 3);
}

#[test]
fn zero_bound_grants_nothing() {
    let mut pool = PoolModel::new(0);
    assert!(!pool.try_acquire());
    assert_eq!(pool.lent(), 0);
}

#[test]
fn pool_creation_is_lazy_and_bounded() {
    // A syntactically acceptable but unreachable URL: creation still
    // succeeds, because no connection is opened until first acquisition.
    let config = load_config(Some(s("postgres://bad")), Some(s("127.0.0.1")), Some(s("8080")))
        .unwrap();
    let pool = create_pool(&config, 5);
    let status = pool.inner.status();
    assert_eq!(status.max_size, 5);
    assert_eq!(status.size, 0);
}

#[test]
fn duplicated_state_shares_the_pool() {
    let config = load_config(Some(s("postgres://bad")), Some(s("127.0.0.1")), Some(s("8080")))
        .unwrap();
    let state = build_state(create_pool(&config, 2));
    let dup = state.duplicate();
    let clone = state.clone();
    assert_eq!(state.pool().inner.status().max_size, 2);
    assert_eq!(dup.pool().inner.status().max_size, 2);
    assert_eq!(clone.pool().inner.status().max_size, 2);
    // The duplicates hold the very pool, not a copy: resizing through one
    // handle is seen through the others.
    state.pool().inner.resize(4);
    assert_eq!(dup.pool().inner.status().max_size, 4);
    assert_eq!(clone.pool().inner.status().max_size, 4);
}
