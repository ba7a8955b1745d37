//! Relay identifiers taken from relay URLs.

use vstd::prelude::*;

verus! {

/// The scheme separator `://` starts at position `i` of `s`.
pub open spec fn separator_at(s: Seq<char>, i: int) -> bool {
    0 <= i && i + 3 <= s.len() && s[i] == ':' && s[i + 1] == '/' && s[i + 2] == '/'
}

/// Position `k` of `rest` ends a host: a `/` stands there or a scheme
/// separator begins there.
pub open spec fn host_stop(rest: Seq<char>, k: int) -> bool {
    rest[k] == '/' || separator_at(rest, k)
}

/// `auth` is the authority part of `url`: without a scheme separator the
/// whole URL; otherwise what follows the first separator, up to the first
/// `/` or the next separator.
pub open spec fn authority_of(url: Seq<char>, auth: Seq<char>) -> bool {
    if !(exists|i: int| separator_at(url, i)) {
        auth == url
    } else {
        exists|i: int| {
            &&& #[trigger] separator_at(url, i)
            &&& forall|j: int| 0 <= j < i ==> !separator_at(url, j)
            &&& {
                let rest = url.subrange(i + 3, url.len() as int);
                &&& auth.len() <= rest.len()
                &&& auth == rest.subrange(0, auth.len() as int)
                &&& forall|k: int| 0 <= k < auth.len() ==> !host_stop(rest, k)
                &&& (auth.len() == rest.len() || host_stop(rest, auth.len() as int))
            }
        }
    }
}

/// `host` is `auth` without its user information: what follows the last
/// `@`, or all of `auth` when it holds none.
pub open spec fn without_userinfo(auth: Seq<char>, host: Seq<char>) -> bool {
    ||| (forall|q: int| 0 <= q < auth.len() ==> auth[q] != '@') && host == auth
    ||| exists|p: int| {
        &&& 0 <= p < auth.len()
        &&& #[trigger] auth[p] == '@'
        &&& forall|q: int| p < q < auth.len() ==> auth[q] != '@'
        &&& host == auth.subrange(p + 1, auth.len() as int)
    }
}

/// `id` is the relay identifier of `url`: the host, with its port, of the
/// URL's authority, user information left out.
pub open spec fn relay_id_of(url: Seq<char>, id: Seq<char>) -> bool {
    exists|auth: Seq<char>| #[trigger] authority_of(url, auth) && without_userinfo(auth, id)
}

/// `auth` without its user information.
fn drop_userinfo(auth: &str) -> (host: String)
    ensures
        without_userinfo(auth@, host@),
{
    let n = auth.unicode_len();
    let mut k: usize = n;
    while k > 0 && auth.get_char(k - 1) != '@'
        invariant
            k <= n,
            n == auth@.len(),
            forall|q: int| k <= q < n ==> auth@[q] != '@',
        decreases k,
    {
        k = k - 1;
    }
    if k == 0 {
        let host = auth.to_owned();
        assert(host@ =~= auth@);
        host
    } else {
        let host = auth.substring_char(k, n).to_owned();
        assert(auth@[k - 1] == '@');
        assert(host@ =~= auth@.subrange(k as int, n as int));
        host
    }
}

/// Whether the scheme separator starts at position `i` of `s`.
fn separator_at_index(s: &str, i: usize) -> (found: bool)
    ensures
        found == separator_at(s@, i as int),
{
    let n = s.unicode_len();
    if i >= n || n - i < 3 {
        return false;
    }
    s.get_char(i) == ':' && s.get_char(i + 1) == '/' && s.get_char(i + 2) == '/'
}

/// The authority of a URL: what follows the scheme up to the path; a URL
/// without a scheme is all authority.
fn authority(url: &str) -> (auth: String)
    ensures
        authority_of(url@, auth@),
{
    let n = url.unicode_len();
    let mut i: usize = 0;
    while i < n && !separator_at_index(url, i)
        invariant
            n == url@.len(),
            i <= n,
            forall|j: int| 0 <= j < i ==> !separator_at(url@, j),
        decreases n - i,
    {
        i = i + 1;
    }
    if i >= n {
        proof {
            assert forall|j: int| !separator_at(url@, j) by {
                if 0 <= j && j < n {
                    assert(j < i);
                }
            }
        }
        return url.to_owned();
    }
    assert(separator_at(url@, i as int));
    let start = i + 3;
    let ghost rest = url@.subrange(start as int, n as int);
    let mut k: usize = start;
    while k < n && url.get_char(k) != '/' && !separator_at_index(url, k)
        invariant
            n == url@.len(),
            start <= k <= n,
            rest == url@.subrange(start as int, n as int),
            forall|j: int| 0 <= j < k - start ==> !host_stop(rest, j),
        decreases n - k,
    {
        proof {
            let m = (k - start) as int;
            assert(rest[m] == url@[k as int]);
            if separator_at(rest, m) {
                assert(rest[m + 1] == url@[k + 1]);
                assert(rest[m + 2] == url@[k + 2]);
                assert(separator_at(url@, k as int));
            }
        }
        k = k + 1;
    }
    let id = url.substring_char(start, k).to_owned();
    proof {
        let m = (k - start) as int;
        assert(id@ =~= rest.subrange(0, m));
        assert(m == rest.len() || host_stop(rest, m)) by {
            if k < n {
                assert(rest[m] == url@[k as int]);
                if separator_at(url@, k as int) {
                    assert(rest[m + 1] == url@[k + 1]);
                    assert(rest[m + 2] == url@[k + 2]);
                }
            }
        }
    }
    id
}

/// The relay identifier of a URL: the host, with its port, that follows the
/// scheme, without any user information; a URL without a scheme is taken
/// as the host itself.
pub fn extract_relay_id(url: &str) -> (id: String)
    ensures
        relay_id_of(url@, id@),
{
    let auth = authority(url);
    let id = drop_userinfo(auth.as_str());
    assert(authority_of(url@, auth@));
    id
}

} // verus!
