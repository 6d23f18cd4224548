use bootcore::config::load_config;
use bootcore::pool::AcquireError;
use bootcore::router::{build_router, response_status, HttpMethod, INTERNAL_ERROR_STATUS};
use bootcore::state::{build_state, create_pool};

fn s(text: &str) -> String {
    text.to_string()
}

fn test_state() -> bootcore::state::AppState {
    let config = load_config(Some(s("postgres://bad")), Some(s("127.0.0.1")), Some(s("8080")))
        .unwrap();
    build_state(create_pool(&config, 1))
}

#[test]
fn lookup_finds_registered_routes() {
    let mut router = build_router(test_state());
    router.route(HttpMethod::Get, s("/users"), 1);
    router.route(HttpMethod::Post, s("/users"), 2);
    router.route(HttpMethod::Get, s("/health"), 3);

    assert_eq!(router.lookup(HttpMethod::Get, &s("/users")), Some(1));
    assert_eq!(router.lookup(HttpMethod::Post, &s("/users")), Some(2));
    assert_eq!(router.lookup(HttpMethod::Get, &s("/health")), Some(3));
    assert_eq!(router.lookup(HttpMethod::Delete, &s("/users")), None);
    assert_eq!(router.lookup(HttpMethod::Get, &s("/missing")), None);
}

#[test]
fn earliest_matching_route_wins() {
    let mut router = build_router(test_state());
    router.route(HttpMethod::Get, s("/a"), 10);
    router.route(HttpMethod::Get, s("/a"), 11);
    assert_eq!(router.lookup(HttpMethod::Get, &s("/a")), Some(10));
}

#[test]
fn router_keeps_injected_state() {
    let router = build_router(test_state());
    assert_eq!(router.state().pool().inner.status().max_size, 1);
}

#[test]
fn acquisition_failures_become_internal_errors() {
    assert_eq!(response_status(Ok(200)), 200);
    assert_eq!(response_status(Ok(404)), 404);
    assert_eq!(
        response_status(Err(AcquireError::PoolExhausted)),
        INTERNAL_ERROR_STATUS
    );
    assert_eq!(response_status(Err(AcquireError::PoolClosed)), 500);
}
