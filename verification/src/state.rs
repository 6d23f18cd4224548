//! The live connection pool and the shared application state built around
//! it. The pool itself comes from an outside crate; the library creates it
//! with the configured bound and hands every request handler the same shared
//! handle. Acquiring a connection is a suspension point of the surrounding
//! asynchronous process and happens outside the library.

use vstd::prelude::*;
use crate::config::Config;

verus! {

/// The live connection pool: a bounded, internally synchronized set of
/// lazily opened connections to the backing store. The pool type of the
/// outside crate cannot be named in verified signatures (its declaration
/// needs a trait bound Verus does not take), so this struct carries it
/// opaquely; the field stays reachable for the surrounding process, which
/// acquires connections from it at its suspension points.
#[verifier::external_body]
pub struct DbPool {
    pub inner: deadpool_diesel::postgres::Pool,
}

impl Clone for DbPool {
    /// Relies on deadpool::managed::Pool::clone: the pool is a
    /// reference-counted handle, and cloning it yields a handle to the same
    /// pool, not a new pool.
    #[verifier::external_body]
    fn clone(&self) -> (r: Self)
        ensures
            r == *self,
    {
        DbPool { inner: self.inner.clone() }
    }
}

/// The bound a pool was created with: the greatest number of connections it
/// will ever hold or lend at once.
pub uninterp spec fn pool_bound(p: DbPool) -> nat;

/// Relies on deadpool_diesel::postgres::Manager::new and on
/// deadpool::managed::PoolBuilder. `Manager::new` stores the URL without
/// touching the store (connections are opened lazily, on first acquisition,
/// so a malformed URL surfaces its error only then); `max_size` sets the
/// pool's bound; `build` can fail only when a timeout is configured without
/// a runtime, and no timeout is configured here.
#[verifier::external_body]
fn pool_build(db_url: &String, max_size: usize) -> (r: DbPool)
    ensures
        pool_bound(r) == max_size,
{
    let manager = deadpool_diesel::postgres::Manager::new(
        db_url.clone(),
        deadpool_diesel::Runtime::Tokio1,
    );
    let pool = deadpool_diesel::postgres::Pool::builder(manager)
        .max_size(max_size)
        .build()
        .expect("a pool without timeouts builds on any runtime");
    DbPool { inner: pool }
}

/// Creates the process's one connection pool, bounded by `max_size`, aimed
/// at the configured store. Creation is lazy: no connection is opened and
/// the URL is not validated against a live store until first acquisition.
pub fn create_pool(config: &Config, max_size: usize) -> (r: DbPool)
    ensures
        pool_bound(r) == max_size,
{
    pool_build(config.db_url(), max_size)
}

/// The shared application state handed to every request handler: the handle
/// to the process-wide connection pool. Duplicating the state shares the
/// same pool — reference semantics, not a copy of the pool.
#[derive(Clone)]
pub struct AppState {
    pool: DbPool,
}

impl AppState {
    pub closed spec fn spec_pool(self) -> DbPool {
        self.pool
    }

    /// The shared pool, for acquiring a connection.
    pub fn pool(&self) -> (r: &DbPool)
        ensures
            *r == self.spec_pool(),
    {
        &self.pool
    }

    /// Duplicates the state for another concurrent request task. The
    /// duplicate holds the very pool this state holds: every handler
    /// observes the same pool instance.
    pub fn duplicate(&self) -> (r: AppState)
        ensures
            r.spec_pool() == self.spec_pool(),
    {
        AppState { pool: self.pool.clone() }
    }
}

/// Pure construction of the shared state from the pool; it cannot fail.
pub fn build_state(pool: DbPool) -> (r: AppState)
    ensures
        r.spec_pool() == pool,
{
    AppState { pool }
}

} // verus!
