//! Module configuration: reserved-gas settings and relay gas answers.

use vstd::prelude::*;
use crate::error::ReservedGasError;
use crate::validation::{sat_sub, validate_gas_after_reservation};
use crate::infrastructure::urls::{checked_url, parse_and_validate_url, url_parse};
use crate::infrastructure::error::Error;
use crate::text::str_eq;

verus! {

/// Gas configuration a relay publishes.
#[derive(Debug, Clone, Copy, PartialEq, Eq, Structural)]
pub struct RelayGasConfig {
    /// Gas the relay reserves in each block.
    pub reserved_gas_limit: u64,
    /// Smallest block gas limit the relay accepts, if it states one.
    pub min_gas_limit: Option<u64>,
    /// How often, in seconds, the relay wants the configuration fetched again.
    pub update_interval: Option<u64>,
}

/// Local reserved-gas settings.
///
/// `relay_overrides` lists per-relay reservations, read from a table that
/// names each relay once (`overrides_distinct`); should an identifier occur
/// more than once, the last occurrence counts.
#[derive(Debug)]
pub struct ReservedGasConfig {
    pub default_reserved_gas: u64,
    pub relay_overrides: Vec<(String, u64)>,
    pub update_interval_secs: u64,
    pub min_block_gas_limit: u64,
    pub relay_config_endpoint: String,
    pub fetch_from_relays: bool,
    pub relay_reserve_endpoint: String,
}

/// The override for `relay_id` in `overrides`: the last entry with that key.
pub open spec fn override_lookup(overrides: Seq<(String, u64)>, relay_id: Seq<char>) -> Option<u64>
    decreases overrides.len(),
{
    if overrides.len() == 0 {
        None
    } else if overrides.last().0@ == relay_id {
        Some(overrides.last().1)
    } else {
        override_lookup(overrides.drop_last(), relay_id)
    }
}

/// No relay is named twice in `overrides`.
pub open spec fn overrides_distinct(overrides: Seq<(String, u64)>) -> bool {
    forall|i: int, j: int| 0 <= i < j < overrides.len() ==> #[trigger] overrides[i].0@ != #[trigger] overrides[j].0@
}

/// When no relay is named twice, looking up a listed relay gives its listed
/// amount.
pub proof fn law_override_lookup_listed(overrides: Seq<(String, u64)>, i: int)
    requires
        overrides_distinct(overrides),
        0 <= i < overrides.len(),
    ensures
        override_lookup(overrides, overrides[i].0@) == Some(overrides[i].1),
    decreases overrides.len(),
{
    let n = overrides.len() - 1;
    if i < n {
        assert(overrides[i].0@ != overrides[n].0@);
        let rest = overrides.drop_last();
        assert(rest[i] == overrides[i]);
        assert forall|a: int, b: int| 0 <= a < b < rest.len() implies #[trigger] rest[a].0@ != #[trigger] rest[b].0@ by {
            assert(rest[a] == overrides[a] && rest[b] == overrides[b]);
        }
        law_override_lookup_listed(rest, i);
    }
}

/// Adding one entry at the end of an override list.
pub proof fn lemma_override_lookup_push(overrides: Seq<(String, u64)>, n: int, relay_id: Seq<char>)
    requires
        0 <= n < overrides.len(),
    ensures
        override_lookup(overrides.take(n + 1), relay_id) == if overrides[n].0@ == relay_id {
            Some(overrides[n].1)
        } else {
            override_lookup(overrides.take(n), relay_id)
        },
{
    assert(overrides.take(n + 1).drop_last() =~= overrides.take(n));
}

impl ReservedGasConfig {
    /// Gas reserved for `relay_id` by configuration alone.
    pub open spec fn spec_reserved_gas(&self, relay_id: Seq<char>) -> u64 {
        match override_lookup(self.relay_overrides@, relay_id) {
            Some(gas) => gas,
            None => self.default_reserved_gas,
        }
    }

    /// Two configurations with the same settings.
    pub open spec fn same_settings(&self, other: &ReservedGasConfig) -> bool {
        &&& self.default_reserved_gas == other.default_reserved_gas
        &&& self.relay_overrides@.len() == other.relay_overrides@.len()
        &&& forall|i: int| 0 <= i < self.relay_overrides@.len() ==>
            #[trigger] self.relay_overrides@[i].0@ == other.relay_overrides@[i].0@
            && self.relay_overrides@[i].1 == other.relay_overrides@[i].1
        &&& self.update_interval_secs == other.update_interval_secs
        &&& self.min_block_gas_limit == other.min_block_gas_limit
        &&& self.relay_config_endpoint@ == other.relay_config_endpoint@
        &&& self.fetch_from_relays == other.fetch_from_relays
        &&& self.relay_reserve_endpoint@ == other.relay_reserve_endpoint@
    }

    /// Gas to reserve for `relay_id`: its override, else the default.
    pub fn get_reserved_gas(&self, relay_id: &str) -> (gas: u64)
        ensures
            gas == self.spec_reserved_gas(relay_id@),
    {
        let key = relay_id.to_owned();
        let mut i: usize = self.relay_overrides.len();
        proof {
            assert(self.relay_overrides@.take(i as int) =~= self.relay_overrides@);
        }
        while i > 0
            invariant
                i <= self.relay_overrides@.len(),
                key@ == relay_id@,
                override_lookup(self.relay_overrides@, relay_id@) == override_lookup(
                    self.relay_overrides@.take(i as int),
                    relay_id@,
                ),
            decreases i,
        {
            let idx = i - 1;
            proof {
                lemma_override_lookup_push(self.relay_overrides@, idx as int, relay_id@);
            }
            if self.relay_overrides[idx].0 == key {
                return self.relay_overrides[idx].1;
            }
            i = idx;
        }
        proof {
            assert(self.relay_overrides@.take(0) =~= Seq::<(String, u64)>::empty());
        }
        self.default_reserved_gas
    }

    /// Gas limit left after reserving `reserved` from `original_gas_limit`,
    /// refused when it falls under `min_block_gas_limit`.
    pub fn validate_gas_limit(&self, original_gas_limit: u64, reserved: u64) -> (result: Result<u64, ReservedGasError>)
        ensures
            sat_sub(original_gas_limit, reserved) >= self.min_block_gas_limit ==> result == Ok::<u64, ReservedGasError>(
                sat_sub(original_gas_limit, reserved),
            ),
            sat_sub(original_gas_limit, reserved) < self.min_block_gas_limit ==> result == Err::<u64, ReservedGasError>(
                ReservedGasError::GasLimitTooLow {
                    actual: sat_sub(original_gas_limit, reserved),
                    minimum: self.min_block_gas_limit,
                    reserved,
                },
            ),
    {
        validate_gas_after_reservation(original_gas_limit, reserved, self.min_block_gas_limit)
    }

    /// A copy with the same settings.
    pub fn duplicate(&self) -> (copy: ReservedGasConfig)
        ensures
            copy.same_settings(self),
    {
        let mut overrides: Vec<(String, u64)> = Vec::new();
        let mut i: usize = 0;
        while i < self.relay_overrides.len()
            invariant
                i <= self.relay_overrides@.len(),
                overrides@.len() == i,
                forall|j: int| 0 <= j < i ==>
                    #[trigger] overrides@[j].0@ == self.relay_overrides@[j].0@
                    && overrides@[j].1 == self.relay_overrides@[j].1,
            decreases self.relay_overrides@.len() - i,
        {
            let id = self.relay_overrides[i].0.clone();
            overrides.push((id, self.relay_overrides[i].1));
            assert(overrides@[i as int].0@ == self.relay_overrides@[i as int].0@);
            i = i + 1;
        }
        ReservedGasConfig {
            default_reserved_gas: self.default_reserved_gas,
            relay_overrides: overrides,
            update_interval_secs: self.update_interval_secs,
            min_block_gas_limit: self.min_block_gas_limit,
            relay_config_endpoint: self.relay_config_endpoint.clone(),
            fetch_from_relays: self.fetch_from_relays,
            relay_reserve_endpoint: self.relay_reserve_endpoint.clone(),
        }
    }
}

/// How often requests are retried, and how long to wait between tries.
#[derive(Debug, Clone, Copy, PartialEq, Eq, Structural)]
pub struct RetryConfig {
    /// Most retry attempts.
    pub max_retries: u32,
    /// First pause, in milliseconds.
    pub initial_backoff_ms: u64,
    /// Longest pause, in seconds.
    pub max_backoff_secs: u64,
}

impl Default for RetryConfig {
    fn default() -> (config: RetryConfig)
        ensures
            config == (RetryConfig { max_retries: 3, initial_backoff_ms: 100, max_backoff_secs: 5 }),
    {
        RetryConfig {
            max_retries: default_max_retries(),
            initial_backoff_ms: default_initial_backoff_ms(),
            max_backoff_secs: default_max_backoff_secs(),
        }
    }
}

/// Per-validator request limit.
#[derive(Debug, Clone, Copy, PartialEq, Eq, Structural)]
pub struct ValidatorRateLimitConfig {
    /// Most requests per validator in a window.
    pub max_requests_per_validator: usize,
    /// Window length in seconds.
    pub window_secs: u64,
}

impl Default for ValidatorRateLimitConfig {
    fn default() -> (config: ValidatorRateLimitConfig)
        ensures
            config == (ValidatorRateLimitConfig { max_requests_per_validator: 10, window_secs: 60 }),
    {
        ValidatorRateLimitConfig {
            max_requests_per_validator: default_max_requests_per_validator(),
            window_secs: default_rate_limit_window_secs(),
        }
    }
}

/// EigenLayer integration settings.
#[derive(Debug)]
pub struct EigenLayerConfig {
    pub enabled: bool,
    /// Address of the registry contract.
    pub registry_address: String,
    /// Ethereum RPC URL.
    pub rpc_url: String,
    /// Operator watched in shadow mode.
    pub operator_address: Option<String>,
}

impl Default for EigenLayerConfig {
    fn default() -> (config: EigenLayerConfig)
        ensures
            !config.enabled,
            config.registry_address@ == Seq::<char>::empty(),
            config.rpc_url@ == Seq::<char>::empty(),
            config.operator_address is None,
    {
        EigenLayerConfig { enabled: false, registry_address: String::new(), rpc_url: String::new(), operator_address: None }
    }
}

/// Settings of the XGA commitment module.
#[derive(Debug)]
pub struct XgaConfig {
    /// Seconds between polls of the relays.
    pub polling_interval_secs: u64,
    /// URLs of the XGA-enabled relays.
    pub xga_relays: Vec<String>,
    /// Oldest registration processed, in seconds.
    pub max_registration_age_secs: u64,
    /// Whether to probe relay capabilities at run time.
    pub probe_relay_capabilities: bool,
    pub retry_config: RetryConfig,
    pub eigenlayer: EigenLayerConfig,
    pub validator_rate_limit: ValidatorRateLimitConfig,
}

/// Requests per validator per window by default: 10.
pub fn default_max_requests_per_validator() -> (n: usize)
    ensures
        n == 10,
{
    10
}

/// Rate limit window by default: 60 seconds.
pub fn default_rate_limit_window_secs() -> (secs: u64)
    ensures
        secs == 60,
{
    60
}

/// Polling interval by default: 5 seconds.
pub fn default_polling_interval_secs() -> (secs: u64)
    ensures
        secs == 5,
{
    5
}

/// Oldest registration processed by default: 60 seconds.
pub fn default_max_registration_age_secs() -> (secs: u64)
    ensures
        secs == 60,
{
    60
}

/// Relay capabilities are not probed by default.
pub fn default_probe_relay_capabilities() -> (probe: bool)
    ensures
        !probe,
{
    false
}

/// Retry attempts by default: 3.
pub fn default_max_retries() -> (n: u32)
    ensures
        n == 3,
{
    3
}

/// First pause by default: 100 milliseconds.
pub fn default_initial_backoff_ms() -> (ms: u64)
    ensures
        ms == 100,
{
    100
}

/// Longest pause by default: 5 seconds.
pub fn default_max_backoff_secs() -> (secs: u64)
    ensures
        secs == 5,
{
    5
}

/// The first relay URL that breaks the relay URL rules, reported with its
/// reason; `Ok` when all pass.
pub open spec fn relay_urls_check(relays: Seq<String>) -> Result<(), Seq<char>>
    decreases relays.len(),
{
    if relays.len() == 0 {
        Ok(())
    } else {
        match relay_urls_check(relays.drop_last()) {
            Err(e) => Err(e),
            Ok(()) => match checked_url(relays.last()@, url_parse(relays.last()@)) {
                Err(m) => Err("Invalid XGA relay URL: "@ + ("Invalid URL: "@ + m)),
                Ok(_) => Ok(()),
            },
        }
    }
}

/// The outcome of checking the module settings, rule by rule.
pub open spec fn xga_config_check(c: XgaConfig) -> Result<(), Seq<char>> {
    if c.polling_interval_secs < 1 || c.polling_interval_secs > 3600 {
        Err("Polling interval must be between 1 second and 1 hour"@)
    } else if c.max_registration_age_secs < 1 || c.max_registration_age_secs > 600 {
        Err("Max registration age must be between 1 second and 10 minutes"@)
    } else if c.xga_relays@.len() == 0 {
        Err("At least one XGA relay must be configured"@)
    } else if relay_urls_check(c.xga_relays@) is Err {
        relay_urls_check(c.xga_relays@)
    } else if c.retry_config.max_retries > 10 {
        Err("Max retries must be <= 10"@)
    } else if c.retry_config.initial_backoff_ms < 10 || c.retry_config.initial_backoff_ms > 60000 {
        Err("Initial backoff must be between 10ms and 60 seconds"@)
    } else if c.retry_config.max_backoff_secs > 300 {
        Err("Max backoff must be <= 5 minutes"@)
    } else if c.validator_rate_limit.max_requests_per_validator < 1 {
        Err("Max requests per validator must be >= 1"@)
    } else if c.validator_rate_limit.window_secs < 1 || c.validator_rate_limit.window_secs > 3600 {
        Err("Rate limit window must be between 1 second and 1 hour"@)
    } else {
        Ok(())
    }
}

impl XgaConfig {
    /// Whether `relay_url` is one of the XGA relays.
    pub fn is_xga_relay(&self, relay_url: &str) -> (xga: bool)
        ensures
            xga == exists|i: int| 0 <= i < self.xga_relays@.len() && #[trigger] self.xga_relays@[i]@ == relay_url@,
    {
        let mut i: usize = 0;
        while i < self.xga_relays.len()
            invariant
                i <= self.xga_relays@.len(),
                forall|j: int| 0 <= j < i ==> #[trigger] self.xga_relays@[j]@ != relay_url@,
            decreases self.xga_relays@.len() - i,
        {
            if str_eq(self.xga_relays[i].as_str(), relay_url) {
                return true;
            }
            i = i + 1;
        }
        false
    }

    /// Checks the settings against the module's limits.
    pub fn validate(&self) -> (result: Result<(), String>)
        ensures
            match result {
                Ok(()) => xga_config_check(*self) is Ok,
                Err(m) => xga_config_check(*self) == Err::<(), Seq<char>>(m@),
            },
            result is Ok ==> config_within_limits(*self),
    {
        if self.polling_interval_secs < 1 || self.polling_interval_secs > 3600 {
            return Err(String::from_str("Polling interval must be between 1 second and 1 hour"));
        }
        if self.max_registration_age_secs < 1 || self.max_registration_age_secs > 600 {
            return Err(String::from_str("Max registration age must be between 1 second and 10 minutes"));
        }
        if self.xga_relays.len() == 0 {
            return Err(String::from_str("At least one XGA relay must be configured"));
        }
        let mut i: usize = 0;
        while i < self.xga_relays.len()
            invariant
                i <= self.xga_relays@.len(),
                relay_urls_check(self.xga_relays@.take(i as int)) is Ok,
                1 <= self.polling_interval_secs <= 3600,
                1 <= self.max_registration_age_secs <= 600,
                self.xga_relays@.len() > 0,
            decreases self.xga_relays@.len() - i,
        {
            proof {
                assert(self.xga_relays@.take(i + 1).drop_last() =~= self.xga_relays@.take(i as int));
            }
            match parse_and_validate_url(self.xga_relays[i].as_str()) {
                Err(e) => {
                    let mut m = String::from_str("Invalid XGA relay URL: ");
                    m.append(e.message().as_str());
                    proof {
                        let t = self.xga_relays@.take(i + 1);
                        assert(t.last() == self.xga_relays@[i as int]);
                        assert(relay_urls_check(t) is Err);
                        lemma_relay_urls_check_prefix(self.xga_relays@, i + 1);
                        assert(m@ =~= "Invalid XGA relay URL: "@ + e.spec_message());
                    }
                    return Err(m);
                },
                Ok(_) => {},
            }
            i = i + 1;
        }
        proof {
            assert(self.xga_relays@.take(i as int) =~= self.xga_relays@);
        }
        if self.retry_config.max_retries > 10 {
            return Err(String::from_str("Max retries must be <= 10"));
        }
        if self.retry_config.initial_backoff_ms < 10 || self.retry_config.initial_backoff_ms > 60000 {
            return Err(String::from_str("Initial backoff must be between 10ms and 60 seconds"));
        }
        if self.retry_config.max_backoff_secs > 300 {
            return Err(String::from_str("Max backoff must be <= 5 minutes"));
        }
        if self.validator_rate_limit.max_requests_per_validator < 1 {
            return Err(String::from_str("Max requests per validator must be >= 1"));
        }
        if self.validator_rate_limit.window_secs < 1 || self.validator_rate_limit.window_secs > 3600 {
            return Err(String::from_str("Rate limit window must be between 1 second and 1 hour"));
        }
        proof {
            law_valid_config_within_limits(*self);
        }
        Ok(())
    }
}

/// The module settings keep every limit: a polling interval of one second
/// to an hour, a registration age of one second to ten minutes, at least
/// one relay and every relay URL passing the relay URL rules, at most ten
/// retries, an initial backoff of 10 ms to a minute, a backoff cap of at
/// most five minutes, at least one request per validator and a rate
/// window of one second to an hour.
pub open spec fn config_within_limits(c: XgaConfig) -> bool {
    &&& 1 <= c.polling_interval_secs <= 3600
    &&& 1 <= c.max_registration_age_secs <= 600
    &&& c.xga_relays@.len() > 0
    &&& forall|i: int| 0 <= i < c.xga_relays@.len() ==>
        (checked_url(#[trigger] c.xga_relays@[i]@, url_parse(c.xga_relays@[i]@)) is Ok)
    &&& c.retry_config.max_retries <= 10
    &&& 10 <= c.retry_config.initial_backoff_ms <= 60000
    &&& c.retry_config.max_backoff_secs <= 300
    &&& c.validator_rate_limit.max_requests_per_validator >= 1
    &&& 1 <= c.validator_rate_limit.window_secs <= 3600
}

/// The relay URL check passes exactly when every relay URL passes the
/// relay URL rules.
pub proof fn law_relay_urls_all_pass(relays: Seq<String>)
    ensures
        relay_urls_check(relays) is Ok <==> forall|i: int| 0 <= i < relays.len() ==>
            (checked_url(#[trigger] relays[i]@, url_parse(relays[i]@)) is Ok),
    decreases relays.len(),
{
    if relays.len() > 0 {
        let rest = relays.drop_last();
        law_relay_urls_all_pass(rest);
        assert forall|i: int| 0 <= i < rest.len() implies #[trigger] rest[i] == relays[i] by {}
        if relay_urls_check(relays) is Ok {
            assert forall|i: int| 0 <= i < relays.len() implies
                (checked_url(#[trigger] relays[i]@, url_parse(relays[i]@)) is Ok) by {
                if i < rest.len() {
                    assert(rest[i] == relays[i]);
                }
            }
        } else {
            if relay_urls_check(rest) is Err {
                let j = choose|j: int| 0 <= j < rest.len() && !(checked_url(#[trigger] rest[j]@, url_parse(rest[j]@)) is Ok);
                assert(rest[j] == relays[j]);
            } else {
                assert(relays[relays.len() - 1] == relays.last());
            }
        }
    }
}

/// Settings that pass the checks keep every limit, and every configured
/// relay URL passes the relay URL rules.
pub proof fn law_valid_config_within_limits(c: XgaConfig)
    requires
        xga_config_check(c) is Ok,
    ensures
        config_within_limits(c),
{
    law_relay_urls_all_pass(c.xga_relays@);
}

/// A failure in a prefix of the relay list is the failure of the whole list.
proof fn lemma_relay_urls_check_prefix(relays: Seq<String>, n: int)
    requires
        0 <= n <= relays.len(),
        relay_urls_check(relays.take(n)) is Err,
    ensures
        relay_urls_check(relays) == relay_urls_check(relays.take(n)),
    decreases relays.len() - n,
{
    if n < relays.len() {
        assert(relays.take(n + 1).drop_last() =~= relays.take(n));
        lemma_relay_urls_check_prefix(relays, n + 1);
    } else {
        assert(relays.take(n) =~= relays);
    }
}

} // verus!
