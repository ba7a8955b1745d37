//! The cached relay queries: a query first looks in its cache, uses a fresh
//! entry as it is or checks it with the relay by its entity tag, and only
//! otherwise asks the relay; a successful answer is cached with the entity
//! tag the relay sent.

use vstd::prelude::*;
use crate::cache::{get_step, insert_step, LruCache};
use crate::config::RelayGasConfig;
use crate::error::ReservedGasError;
use crate::infrastructure::urls::{join_url, url_join};
use crate::text::{decimal, u64_to_decimal};
use crate::relay_communication::{
    gas_config_answer, gas_config_answered, header_answer, header_answered, reserve_answer, reserve_answered,
};

verus! {

/// The builder API path of the header for `slot` on `parent_hash` for the
/// validator `pubkey`.
pub fn header_endpoint(slot: u64, parent_hash: &str, pubkey: &str) -> (endpoint: String)
    ensures
        endpoint@ == "/eth/v1/builder/header/"@ + decimal(slot as nat) + "/"@ + parent_hash@ + "/"@ + pubkey@,
{
    let mut endpoint = String::from_str("/eth/v1/builder/header/");
    endpoint.append(u64_to_decimal(slot).as_str());
    endpoint.append("/");
    endpoint.append(parent_hash);
    endpoint.append("/");
    endpoint.append(pubkey);
    endpoint
}

/// The URL a query to `endpoint` of the relay at `base_url` is sent to:
/// the endpoint resolved against the relay's URL; a URL that cannot be
/// formed is a configuration error naming why.
pub fn relay_request_url(base_url: &str, endpoint: &str) -> (url: Result<String, ReservedGasError>)
    ensures
        url is Ok <==> url_join(base_url@, endpoint@) is Ok,
        url matches Ok(u) ==> url_join(base_url@, endpoint@) == Ok::<Seq<char>, Seq<char>>(u@),
        url matches Err(e) ==> (url_join(base_url@, endpoint@) matches Err(why)
            && e matches ReservedGasError::ConfigError(m) && m@ == "Invalid URL: "@ + why),
{
    match join_url(base_url, endpoint) {
        Ok(u) => Ok(u),
        Err(why) => {
            let mut m = String::from_str("Invalid URL: ");
            m.append(why.as_str());
            Err(ReservedGasError::ConfigError(m))
        },
    }
}

/// What a query does first.
#[derive(Debug)]
pub enum QueryStep<T> {
    /// A fresh cached answer without an entity tag is used as it is.
    UseCached(T),
    /// A fresh cached answer with an entity tag is checked with the relay
    /// (`If-None-Match`); `cached` is the answer if the relay says `304`.
    Revalidate { etag: String, cached: T },
    /// Nothing usable is cached: the relay is asked.
    Fetch,
}

/// The step a cache lookup's outcome gives.
pub open spec fn step_of<T>(found: Option<(T, Option<String>)>) -> QueryStep<T> {
    match found {
        None => QueryStep::Fetch,
        Some((v, None)) => QueryStep::UseCached(v),
        Some((v, Some(e))) => QueryStep::Revalidate { etag: e, cached: v },
    }
}

/// Starts a query for `key` at `now` (milliseconds): a fresh entry without
/// an entity tag is used, a fresh entry with one is to be revalidated,
/// and anything else is fetched. The lookup marks a fresh entry used and
/// drops an expired one, as a cache read does.
pub fn query_begin<T: Clone>(cache: &mut LruCache<T>, key: &str, now: u64) -> (step: QueryStep<T>)
    requires
        old(cache).wf(),
    ensures
        final(cache).wf(),
        exists|found: Option<(T, Option<String>)>| #[trigger] get_step(*old(cache), *final(cache), key@, now, found)
            && step == step_of(found),
        !old(cache).spec_entries().dom().contains(key@) || old(cache).spec_entries()[key@].expired_at(now) ==> step is Fetch,
        old(cache).spec_entries().dom().contains(key@) && !old(cache).spec_entries()[key@].expired_at(now) ==> {
            let entry = old(cache).spec_entries()[key@];
            &&& entry.etag is None ==> (step matches QueryStep::UseCached(v) && cloned(entry.value, v))
            &&& entry.etag matches Some(e) ==> (step matches QueryStep::Revalidate { etag, cached } && etag == e
                && cloned(entry.value, cached))
        },
{
    let found = cache.get_at(key, now);
    assert(get_step(*old(cache), *cache, key@, now, found));
    match found {
        None => QueryStep::Fetch,
        Some((v, None)) => QueryStep::UseCached(v),
        Some((v, Some(e))) => QueryStep::Revalidate { etag: e, cached: v },
    }
}

/// Ends a reserve requirement query for `key` at `now`. When a cached value
/// was being revalidated and the relay answered `304`, the cached value is
/// the answer. Otherwise the answer is read as `reserve_answer` reads it, and
/// a reserve it gives is cached with the relay's entity tag; anything else
/// leaves the cache as it was.
pub fn reserve_query_end(
    cache: &mut LruCache<u64>,
    key: String,
    cached: Option<u64>,
    status: u16,
    status_text: &str,
    etag: Option<String>,
    reserve: Result<Option<u64>, String>,
    now: u64,
) -> (result: Result<Option<u64>, ReservedGasError>)
    requires
        old(cache).wf(),
    ensures
        final(cache).wf(),
        cached is Some && status == 304 ==> result == Ok::<Option<u64>, ReservedGasError>(cached)
            && *final(cache) == *old(cache),
        !(cached is Some && status == 304) ==> reserve_answered(status, status_text@, reserve, result),
        !(cached is Some && status == 304) ==> match result {
            Ok(Some(v)) => insert_step(*old(cache), *final(cache), key@, v, etag, old(cache).spec_default_ttl(), now),
            _ => *final(cache) == *old(cache),
        },
{
    if status == 304 {
        match cached {
            Some(v) => return Ok(Some(v)),
            None => {},
        }
    }
    let result = reserve_answer(status, status_text, reserve);
    match result {
        Ok(Some(v)) => {
            cache.insert_at(key, v, etag, now);
            Ok(Some(v))
        },
        other => other,
    }
}

/// Ends a gas configuration query for `key` at `now`, as
/// `reserve_query_end` does, the answer read as `gas_config_answer` reads
/// it for the relay `relay_id`.
pub fn gas_config_query_end(
    cache: &mut LruCache<RelayGasConfig>,
    key: String,
    cached: Option<RelayGasConfig>,
    relay_id: &str,
    status: u16,
    status_text: &str,
    etag: Option<String>,
    body: Result<RelayGasConfig, String>,
    now: u64,
) -> (result: Result<Option<RelayGasConfig>, ReservedGasError>)
    requires
        old(cache).wf(),
    ensures
        final(cache).wf(),
        cached is Some && status == 304 ==> result == Ok::<Option<RelayGasConfig>, ReservedGasError>(cached)
            && *final(cache) == *old(cache),
        !(cached is Some && status == 304) ==> gas_config_answered(relay_id@, status, status_text@, body, result),
        !(cached is Some && status == 304) ==> match result {
            Ok(Some(v)) => insert_step(*old(cache), *final(cache), key@, v, etag, old(cache).spec_default_ttl(), now),
            _ => *final(cache) == *old(cache),
        },
{
    if status == 304 {
        match cached {
            Some(v) => return Ok(Some(v)),
            None => {},
        }
    }
    let result = gas_config_answer(relay_id, status, status_text, body);
    match result {
        Ok(Some(v)) => {
            cache.insert_at(key, v, etag, now);
            Ok(Some(v))
        },
        other => other,
    }
}

/// Ends a header query for `key` at `now`, as `reserve_query_end` does, the
/// answer read as `header_answer` reads it; the cache keeps a clone of a
/// header it gives.
pub fn header_query_end<T: Clone>(
    cache: &mut LruCache<T>,
    key: String,
    cached: Option<T>,
    status: u16,
    status_text: &str,
    etag: Option<String>,
    body: Result<T, String>,
    now: u64,
) -> (result: Result<Option<T>, ReservedGasError>)
    requires
        old(cache).wf(),
    ensures
        final(cache).wf(),
        cached is Some && status == 304 ==> result == Ok::<Option<T>, ReservedGasError>(cached)
            && *final(cache) == *old(cache),
        !(cached is Some && status == 304) ==> header_answered(status, status_text@, body, result),
        !(cached is Some && status == 304) ==> match result {
            Ok(Some(v)) => exists|stored: T| cloned(v, stored)
                && #[trigger] insert_step(*old(cache), *final(cache), key@, stored, etag, old(cache).spec_default_ttl(), now),
            _ => *final(cache) == *old(cache),
        },
{
    if status == 304 {
        match cached {
            Some(v) => return Ok(Some(v)),
            None => {},
        }
    }
    let result = header_answer(status, status_text, body);
    match result {
        Ok(Some(v)) => {
            let stored = v.clone();
            cache.insert_at(key, stored, etag, now);
            assert(insert_step(*old(cache), *cache, key@, stored, etag, old(cache).spec_default_ttl(), now));
            Ok(Some(v))
        },
        other => other,
    }
}

} // verus!
