//! Verified core of a networked service's startup sequence.
//!
//! The library covers the logic of bringing such a service up: loading and
//! validating a configuration snapshot, the accounting of a bounded
//! connection pool, deciding which schema migrations to apply and in what
//! order, wiring shared application state into a router, forming the exact
//! listening-address text, and the linear bootstrap pipeline that ties the
//! stages together. The surrounding process (environment access, the
//! asynchronous runtime, the HTTP listener) lives outside the library and
//! hands it plain values.

pub mod addr;
pub mod boot;
pub mod config;
pub mod migrate;
pub mod pool;
pub mod router;
pub mod state;
