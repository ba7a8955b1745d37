use vstd::prelude::*;
use crate::text::has_prefix;

verus! {

/// A `reqwest` HTTP client, carried through as it is.
#[verifier::external_type_specification]
#[verifier::external_body]
pub struct ExClient(reqwest::Client);

/// Builds a client with `reqwest::ClientBuilder`: `pool_max_idle_per_host`,
/// `timeout` (milliseconds), then `build`; a build error is rendered as
/// text. Nothing is claimed of the client itself, and `build` can fail
/// (no TLS backend, for one), so no success is promised either.
#[verifier::external_body]
fn build_client(max_idle_per_host: usize, timeout_ms: u64) -> (client: Result<reqwest::Client, String>)
{
    reqwest::ClientBuilder::new()
        .pool_max_idle_per_host(max_idle_per_host)
        .timeout(std::time::Duration::from_millis(timeout_ms))
        .build()
        .map_err(|e| e.to_string())
}

/// Settings for building HTTP clients: request timeout and idle
/// connections kept per host.
#[derive(Debug, Clone, Copy, PartialEq, Eq, Structural)]
pub struct HttpClientFactory {
    default_timeout_ms: u64,
    max_idle_per_host: usize,
}

impl HttpClientFactory {
    pub closed spec fn spec_timeout_ms(&self) -> u64 {
        self.default_timeout_ms
    }

    pub closed spec fn spec_max_idle_per_host(&self) -> usize {
        self.max_idle_per_host
    }

    /// Ten-second timeout and ten idle connections per host.
    pub fn new() -> (factory: HttpClientFactory)
        ensures
            factory.spec_timeout_ms() == 10_000,
            factory.spec_max_idle_per_host() == 10,
    {
        HttpClientFactory { default_timeout_ms: 10_000, max_idle_per_host: 10 }
    }

    /// Request timeout in milliseconds.
    pub fn default_timeout_ms(&self) -> (ms: u64)
        ensures
            ms == self.spec_timeout_ms(),
    {
        self.default_timeout_ms
    }

    /// Idle connections kept per host.
    pub fn max_idle_per_host(&self) -> (n: usize)
        ensures
            n == self.spec_max_idle_per_host(),
    {
        self.max_idle_per_host
    }

    /// A client with the factory's idle connections and timeout.
    pub fn create_client(&self) -> (client: Result<reqwest::Client, String>)
        ensures
            client matches Err(m) ==> has_prefix(m@, "Failed to create HTTP client: "@),
    {
        self.client_or(self.default_timeout_ms, "Failed to create HTTP client: ")
    }

    /// A client with the factory's idle connections and the timeout
    /// `timeout_ms`.
    pub fn create_client_with_timeout(&self, timeout_ms: u64) -> (client: Result<reqwest::Client, String>)
        ensures
            client matches Err(m) ==> has_prefix(m@, "Failed to create HTTP client with custom timeout: "@),
    {
        self.client_or(timeout_ms, "Failed to create HTTP client with custom timeout: ")
    }

    /// A client with timeout `timeout_ms`, or the build error after `context`.
    fn client_or(&self, timeout_ms: u64, context: &str) -> (client: Result<reqwest::Client, String>)
        ensures
            client matches Err(m) ==> has_prefix(m@, context@),
    {
        match build_client(self.max_idle_per_host, timeout_ms) {
            Ok(c) => Ok(c),
            Err(e) => {
                let mut m = String::from_str(context);
                m.append(e.as_str());
                assert(m@.subrange(0, context@.len() as int) =~= context@);
                Err(m)
            },
        }
    }
}

impl Default for HttpClientFactory {
    fn default() -> (factory: HttpClientFactory)
        ensures
            factory.spec_timeout_ms() == 10_000,
            factory.spec_max_idle_per_host() == 10,
    {
        Self::new()
    }
}

} // verus!
