//! The health-check payload.
//!
//! The probes themselves (a `SELECT 1` against the database, a `PING`
//! against the key-value store) are plain I/O performed by the host
//! program; this module only assembles their outcomes.

use vstd::prelude::*;

verus! {

/// Body of `GET /health_check`.
#[derive(Clone, Copy, Debug, PartialEq, Eq, Structural)]
pub struct HealthCheckResponse {
    pub db_ok: bool,
    pub redis_ok: bool,
    pub server_ok: bool,
}

/// Assemble the health report: the dependency probes are reported as
/// observed, and `server_ok` is always true — if this code runs at all,
/// the server itself is up.
pub fn health_check(db_ok: bool, redis_ok: bool) -> (resp: HealthCheckResponse)
    ensures
        resp.db_ok == db_ok,
        resp.redis_ok == redis_ok,
        resp.server_ok,
{
    HealthCheckResponse { db_ok, redis_ok, server_ok: true }
}

} // verus!
