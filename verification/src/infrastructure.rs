//! Shared infrastructure: URL and address checks, timestamps, constant-time
//! comparison, per-relay circuit breaking and rate limiting.

pub mod utils;
pub mod clock;
pub mod circuit_breaker;
pub mod rate_limiter;
pub mod error;
pub mod urls;
pub mod http_client;
