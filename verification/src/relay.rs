//! Talking to XGA relays: the endpoints, how an answer to a commitment is
//! read, and how XGA support is recognised.

use vstd::prelude::*;
use crate::text::{contains, contains_text};

verus! {

/// `s` without its trailing `/` characters.
pub open spec fn trim_slashes(s: Seq<char>) -> Seq<char>
    decreases s.len(),
{
    if s.len() > 0 && s.last() == '/' { trim_slashes(s.drop_last()) } else { s }
}

/// `url` with every trailing `/` removed.
pub fn trim_trailing_slashes(url: &str) -> (trimmed: String)
    ensures
        trimmed@ == trim_slashes(url@),
{
    let mut end: usize = url.unicode_len();
    assert(url@.subrange(0, end as int) =~= url@);
    while end > 0 && url.get_char(end - 1) == '/'
        invariant
            end <= url@.len(),
            trim_slashes(url@.subrange(0, end as int)) == trim_slashes(url@),
        decreases end,
    {
        proof {
            assert(url@.subrange(0, end as int).drop_last() =~= url@.subrange(0, end - 1));
        }
        end = end - 1;
    }
    let trimmed = url.substring_char(0, end).to_owned();
    proof {
        let prefix = url@.subrange(0, end as int);
        assert(trimmed@ =~= prefix);
        if end > 0 {
            assert(prefix.last() == url@[end - 1]);
        }
    }
    trimmed
}

/// The relay's commitment endpoint.
pub fn commitment_endpoint(relay_url: &str) -> (endpoint: String)
    ensures
        endpoint@ == trim_slashes(relay_url@) + "/eth/v1/builder/xga/commitment"@,
{
    let mut endpoint = trim_trailing_slashes(relay_url);
    endpoint.append("/eth/v1/builder/xga/commitment");
    endpoint
}

/// The relay's capabilities endpoint.
pub fn capabilities_endpoint(relay_url: &str) -> (endpoint: String)
    ensures
        endpoint@ == trim_slashes(relay_url@) + "/eth/v1/builder/xga/capabilities"@,
{
    let mut endpoint = trim_trailing_slashes(relay_url);
    endpoint.append("/eth/v1/builder/xga/capabilities");
    endpoint
}

/// A relay's answer to a commitment, as far as it could be read.
#[derive(Debug)]
pub struct RelayAck {
    pub success: bool,
    pub message: Option<String>,
    pub commitment_id: Option<String>,
}

/// What a relay's answer to a commitment means, given the status code, its
/// rendering, the body read as an acknowledgement (when it could be) and
/// the body's text.
pub open spec fn send_outcome(status: u16, status_text: Seq<char>, ack: Option<(bool, Option<Seq<char>>)>, body: Seq<char>) -> Result<(), Seq<char>> {
    if status == 200 || status == 201 || status == 202 {
        match ack {
            None => Ok(()),
            Some((true, _)) => Ok(()),
            Some((false, message)) => Err("Relay rejected commitment: "@ + match message {
                Some(m) => m,
                None => Seq::empty(),
            }),
        }
    } else if status == 400 {
        Err("Bad request: "@ + body)
    } else if status == 401 {
        Err("Unauthorized: relay requires authentication"@)
    } else if status == 404 {
        Err("XGA endpoint not found - relay may not support XGA"@)
    } else if status == 429 {
        Err("Rate limited by relay"@)
    } else {
        Err("Relay returned "@ + status_text + ": "@ + body)
    }
}

/// The acknowledgement as plain values.
pub open spec fn ack_view(ack: Option<RelayAck>) -> Option<(bool, Option<Seq<char>>)> {
    match ack {
        None => None,
        Some(a) => Some((a.success, match a.message {
            Some(m) => Some(m@),
            None => None,
        })),
    }
}

/// Reads a relay's answer to a commitment: success codes accept unless the
/// body says the relay rejected it; the known failure codes get their own
/// message, any other code its rendering and the body.
pub fn commitment_send_result(status: u16, status_text: &str, ack: Option<RelayAck>, body: &str) -> (result: Result<(), String>)
    ensures
        match result {
            Ok(()) => send_outcome(status, status_text@, ack_view(ack), body@) is Ok,
            Err(m) => send_outcome(status, status_text@, ack_view(ack), body@) == Err::<(), Seq<char>>(m@),
        },
{
    if status == 200 || status == 201 || status == 202 {
        match ack {
            None => Ok(()),
            Some(a) => if a.success {
                Ok(())
            } else {
                let mut m = String::from_str("Relay rejected commitment: ");
                match &a.message {
                    Some(text) => m.append(text.as_str()),
                    None => {},
                }
                Err(m)
            },
        }
    } else if status == 400 {
        let mut m = String::from_str("Bad request: ");
        m.append(body);
        Err(m)
    } else if status == 401 {
        Err(String::from_str("Unauthorized: relay requires authentication"))
    } else if status == 404 {
        Err(String::from_str("XGA endpoint not found - relay may not support XGA"))
    } else if status == 429 {
        Err(String::from_str("Rate limited by relay"))
    } else {
        let mut m = String::from_str("Relay returned ");
        m.append(status_text);
        m.append(": ");
        m.append(body);
        Err(m)
    }
}

/// A success code from the capabilities endpoint confirms XGA support.
pub fn capabilities_confirm(status: Option<u16>) -> (supported: bool)
    ensures
        supported == (status matches Some(s) && 200 <= s <= 299),
{
    match status {
        Some(s) => 200 <= s && s <= 299,
        None => false,
    }
}

/// An OPTIONS answer on the commitment endpoint confirms XGA support when
/// its `Allow` header mentions `POST` or it carries `x-xga-supported`.
pub fn options_confirm(allow: Option<&str>, xga_header: bool) -> (supported: bool)
    ensures
        supported == ((allow matches Some(a) && contains_text(a@, "POST"@)) || xga_header),
{
    let allowed = match allow {
        Some(a) => contains(a, "POST"),
        None => false,
    };
    allowed || xga_header
}

/// A HEAD answer on the commitment endpoint: no answer, `404` or a server
/// error (`5xx`) means no XGA support; any other answer (`405` included)
/// means the endpoint exists.
pub fn head_confirm(status: Option<u16>) -> (supported: bool)
    ensures
        supported == (status matches Some(s) && s != 404 && s < 500),
{
    match status {
        Some(s) => s != 404 && s < 500,
        None => false,
    }
}

/// Whether a relay's answer to a commitment is a refusal of the commitment
/// itself: a success code whose acknowledgement says `success: false`.
pub fn commitment_rejected(status: u16, ack: &Option<RelayAck>) -> (rejected: bool)
    ensures
        rejected == ((status == 200 || status == 201 || status == 202)
            && (ack matches Some(a) && !a.success)),
{
    if status == 200 || status == 201 || status == 202 {
        match ack {
            Some(a) => !a.success,
            None => false,
        }
    } else {
        false
    }
}

/// Whether a failed send is tried again: only while attempts remain, never
/// after the relay refused the commitment, and only on a network failure
/// (no status), a server error (`5xx`) or rate limiting (`429`); other
/// client errors are final.
pub fn send_should_retry(attempt: u32, max_retries: u32, status: Option<u16>, rejected: bool) -> (retry: bool)
    ensures
        retry == (attempt < max_retries && !rejected && match status {
            None => true,
            Some(s) => s >= 500 || s == 429,
        }),
{
    if attempt >= max_retries || rejected {
        return false;
    }
    match status {
        None => true,
        Some(s) => s >= 500 || s == 429,
    }
}

} // verus!
