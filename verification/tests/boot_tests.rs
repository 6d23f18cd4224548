use bootcore::addr::listening_line;
use bootcore::boot::{advance, Phase};
use bootcore::config::load_config;
use bootcore::state::create_pool;

fn s(text: &str) -> String {
    text.to_string()
}

#[test]
fn all_stages_succeeding_reach_serving() {
    let mut phase = Phase::Start;
    phase = advance(phase, true);
    assert_eq!(phase, Phase::ConfigLoaded);
    phase = advance(phase, true);
    assert_eq!(phase, Phase::PoolCreated);
    phase = advance(phase, true);
    assert_eq!(phase, Phase::MigrationsApplied);
    phase = advance(phase, true);
    assert_eq!(phase, Phase::StateBuilt);
    phase = advance(phase, true);
    assert_eq!(phase, Phase::RouterBuilt);
    phase = advance(phase, true);
    assert_eq!(phase, Phase::Serving);
}

#[test]
fn config_failure_aborts_before_any_pool() {
    // The first stage fails: the process is in the terminal failure state
    // and stays there; the pool-created phase is never reached.
    let mut phase = advance(Phase::Start, false);
    assert_eq!(phase, Phase::Failed);
    for _ in 0..5 {
        phase = advance(phase, true);
        assert_eq!(phase, Phase::Failed);
    }
}

#[test]
fn migration_failure_on_bad_url_stops_before_serving() {
    // The environment of this scenario: a syntactically acceptable URL to an
    // unreachable store, a valid host, a valid port.
    let config = load_config(Some(s("postgres://bad")), Some(s("127.0.0.1")), Some(s("8080")))
        .unwrap();
    let mut phase = advance(Phase::Start, true);

    // Pool creation succeeds: the URL is only used lazily.
    let pool = create_pool(&config, 2);
    assert_eq!(pool.inner.status().max_size, 2);
    phase = advance(phase, true);
    assert_eq!(phase, Phase::PoolCreated);

    // The migration stage's connection acquisition fails on first real use.
    let runtime = tokio::runtime::Builder::new_current_thread()
        .enable_all()
        .build()
        .unwrap();
    let acquired = runtime.block_on(pool.inner.get());
    assert!(acquired.is_err());
    phase = advance(phase, false);

    // The process never serves, so the listening line is never logged.
    assert_eq!(phase, Phase::Failed);
    assert_ne!(phase, Phase::Serving);
    let never_logged = listening_line(config.server_host().as_str(), config.server_port());
    assert_eq!(never_logged.as_str(), "listening on http://127.0.0.1:8080");
}
