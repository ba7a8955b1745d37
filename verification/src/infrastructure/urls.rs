//! Absolute URL parsing through the `url` crate, and the relay URL rules.

use vstd::prelude::*;
use crate::infrastructure::error::Error;
use crate::infrastructure::utils::{is_local_address, local_address_spec};
use crate::text::str_eq;

verus! {

/// The parts of a parsed URL the checks read.
#[derive(Debug)]
pub struct UrlParts {
    /// Scheme, such as `https`.
    pub scheme: String,
    /// Host as the URL parser normalises it (an IPv6 host in brackets),
    /// when there is one.
    pub host: Option<String>,
    /// The whole URL in its normalised form.
    pub href: String,
}

/// What `url::Url::parse` gives for `input`: the scheme, host and
/// normalised text of the URL, or the text of the parse error.
pub uninterp spec fn url_parse(input: Seq<char>) -> Result<(Seq<char>, Option<Seq<char>>, Seq<char>), Seq<char>>;

/// The parts as character sequences.
pub open spec fn parts_view(parts: UrlParts) -> (Seq<char>, Option<Seq<char>>, Seq<char>) {
    (
        parts.scheme@,
        match parts.host {
            Some(h) => Some(h@),
            None => None,
        },
        parts.href@,
    )
}

/// Parses `input` with `url::Url::parse` and reads back `scheme()`,
/// `host_str()` and `as_str()`; a parse error is rendered as text. The
/// result is whatever `url_parse` names for the input.
#[verifier::external_body]
pub(crate) fn parse_url(input: &str) -> (parsed: Result<UrlParts, String>)
    ensures
        match parsed {
            Ok(parts) => url_parse(input@) == Ok::<(Seq<char>, Option<Seq<char>>, Seq<char>), Seq<char>>(parts_view(parts)),
            Err(e) => url_parse(input@) == Err::<(Seq<char>, Option<Seq<char>>, Seq<char>), Seq<char>>(e@),
        },
{
    match url::Url::parse(input) {
        Ok(u) => Ok(UrlParts {
            scheme: u.scheme().to_string(),
            host: u.host_str().map(|h| h.to_string()),
            href: u.as_str().to_string(),
        }),
        Err(e) => Err(e.to_string()),
    }
}

/// What `url::Url::join` gives when `reference` is resolved against the
/// URL `url::Url::parse` reads from `base`: the joined URL's normalised
/// text, or the text of the error (from parsing the base or from joining).
pub uninterp spec fn url_join(base: Seq<char>, reference: Seq<char>) -> Result<Seq<char>, Seq<char>>;

/// Parses `base` with `url::Url::parse`, resolves `reference` against it
/// with `url::Url::join` and gives the result's `as_str()`; an error is
/// rendered as text. The result is whatever `url_join` names for the
/// inputs.
#[verifier::external_body]
pub(crate) fn join_url(base: &str, reference: &str) -> (joined: Result<String, String>)
    ensures
        match joined {
            Ok(u) => url_join(base@, reference@) == Ok::<Seq<char>, Seq<char>>(u@),
            Err(e) => url_join(base@, reference@) == Err::<Seq<char>, Seq<char>>(e@),
        },
{
    match url::Url::parse(base).and_then(|u| u.join(reference)) {
        Ok(u) => Ok(u.as_str().to_string()),
        Err(e) => Err(e.to_string()),
    }
}

/// The outcome of checking a relay URL given what parsing it gave: parsing
/// must succeed, the scheme must be `https`, there must be a host, and the
/// host must not be local.
pub open spec fn checked_url(
    url: Seq<char>,
    parsed: Result<(Seq<char>, Option<Seq<char>>, Seq<char>), Seq<char>>,
) -> Result<(Seq<char>, Option<Seq<char>>, Seq<char>), Seq<char>> {
    match parsed {
        Err(e) => Err("Failed to parse URL '"@ + url + "': "@ + e),
        Ok(parts) => if parts.0 != "https"@ {
            Err("URL '"@ + url + "' must use HTTPS scheme"@)
        } else {
            match parts.1 {
                None => Err("URL '"@ + url + "' has no host"@),
                Some(host) => if local_address_spec(host) {
                    Err("URL '"@ + url + "' must not point to local addresses"@)
                } else {
                    Ok(parts)
                },
            }
        },
    }
}

/// The result of a URL check, with errors reported as invalid URLs.
pub open spec fn url_check_view(result: Result<UrlParts, Error>) -> Result<(Seq<char>, Option<Seq<char>>, Seq<char>), Seq<char>> {
    match result {
        Ok(parts) => Ok(parts_view(parts)),
        Err(Error::InvalidUrl(m)) => Err(m@),
        Err(_) => Err(Seq::empty()),
    }
}

/// `prefix` + `url` + `suffix` as one string.
fn quote_url(prefix: &str, url: &str, suffix: &str) -> (text: String)
    ensures
        text@ == prefix@ + url@ + suffix@,
{
    let mut text = String::from_str(prefix);
    text.append(url);
    text.append(suffix);
    text
}

/// Applies the relay URL rules to what parsing `url` gave.
pub fn check_url(url: &str, parsed: Result<UrlParts, String>) -> (result: Result<UrlParts, Error>)
    ensures
        url_check_view(result) == checked_url(url@, match parsed {
            Ok(p) => Ok(parts_view(p)),
            Err(e) => Err(e@),
        }),
        result is Err ==> result matches Err(Error::InvalidUrl(_)),
{
    let parts = match parsed {
        Err(e) => {
            let mut text = quote_url("Failed to parse URL '", url, "': ");
            text.append(e.as_str());
            return Err(Error::InvalidUrl(text));
        },
        Ok(parts) => parts,
    };
    if !str_eq(parts.scheme.as_str(), "https") {
        return Err(Error::InvalidUrl(quote_url("URL '", url, "' must use HTTPS scheme")));
    }
    let local = match &parts.host {
        None => {
            return Err(Error::InvalidUrl(quote_url("URL '", url, "' has no host")));
        },
        Some(host) => is_local_address(host.as_str()),
    };
    if local {
        return Err(Error::InvalidUrl(quote_url("URL '", url, "' must not point to local addresses")));
    }
    Ok(parts)
}

/// Parses `url` and applies the relay URL rules: HTTPS, a host, and not a
/// local address.
pub fn parse_and_validate_url(url: &str) -> (result: Result<UrlParts, Error>)
    ensures
        url_check_view(result) == checked_url(url@, url_parse(url@)),
        result is Err ==> result matches Err(Error::InvalidUrl(_)),
{
    let parsed = parse_url(url);
    check_url(url, parsed)
}

} // verus!
