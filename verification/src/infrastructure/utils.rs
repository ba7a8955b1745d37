use vstd::prelude::*;
use crate::infrastructure::clock::unix_millis;
use crate::infrastructure::error::Error;
use crate::text::{has_prefix, starts_with, str_eq};

verus! {

/// True when every byte of `a` equals the byte of `b` at the same position
/// and both have the same length.
pub open spec fn bytes_equal(a: Seq<u8>, b: Seq<u8>) -> bool {
    a == b
}

/// Compares two byte strings without an early exit on the first difference.
pub fn constant_time_eq(a: &[u8], b: &[u8]) -> (equal: bool)
    ensures
        equal == bytes_equal(a@, b@),
{
    if a.len() != b.len() {
        return false;
    }
    let mut result: u8 = 0;
    let mut i: usize = 0;
    while i < a.len()
        invariant
            a.len() == b.len(),
            0 <= i <= a.len(),
            (result == 0) <==> (forall|j: int| 0 <= j < i ==> a@[j] == b@[j]),
        decreases a.len() - i,
    {
        let x: u8 = a[i];
        let y: u8 = b[i];
        let prev: u8 = result;
        result = prev | (x ^ y);
        assert((prev | (x ^ y)) == 0u8 <==> (prev == 0u8 && x == y)) by (bit_vector);
        i = i + 1;
    }
    proof {
        if result == 0 {
            assert(a@ =~= b@);
        }
    }
    result == 0
}

/// Request body size limit: one mebibyte.
pub const MAX_REQUEST_SIZE: usize = 1048576;

/// Whether `c` is an ASCII decimal digit.
pub open spec fn is_digit(c: char) -> bool {
    '0' <= c <= '9'
}

/// The value of a string of decimal digits.
pub open spec fn digits_value(s: Seq<char>) -> nat
    decreases s.len(),
{
    if s.len() == 0 {
        0
    } else {
        digits_value(s.drop_last()) * 10 + (s.last() as nat - '0' as nat) as nat
    }
}

/// The text after an optional leading `+`.
pub open spec fn unsigned_part(s: Seq<char>) -> Seq<char> {
    if s.len() > 0 && s[0] == '+' { s.drop_first() } else { s }
}

/// Every character is a decimal digit.
pub open spec fn all_digits(s: Seq<char>) -> bool {
    forall|i: int| 0 <= i < s.len() ==> is_digit(#[trigger] s[i])
}

/// What `str::parse::<u8>` gives: an optional `+` sign, then one or more
/// decimal digits whose value is at most 255.
pub open spec fn parse_u8_spec(s: Seq<char>) -> Option<u8> {
    if unsigned_part(s).len() > 0 && all_digits(unsigned_part(s)) && digits_value(unsigned_part(s)) <= 255 {
        Some(digits_value(unsigned_part(s)) as u8)
    } else {
        None
    }
}

/// Appending a digit never lowers the value.
pub proof fn lemma_digits_value_grows(s: Seq<char>, n: int)
    requires
        0 <= n <= s.len(),
        all_digits(s),
    ensures
        digits_value(s.take(n)) <= digits_value(s),
    decreases s.len() - n,
{
    if n < s.len() {
        lemma_digits_value_grows(s, n + 1);
        assert(s.take(n + 1).drop_last() =~= s.take(n));
    } else {
        assert(s.take(n) =~= s);
    }
}

/// Parses a `u8` the way `str::parse::<u8>` does.
pub fn parse_u8(s: &str) -> (value: Option<u8>)
    ensures
        value == parse_u8_spec(s@),
{
    let len = s.unicode_len();
    let mut start: usize = 0;
    if len > 0 && s.get_char(0) == '+' {
        start = 1;
    }
    let ghost digits = unsigned_part(s@);
    proof {
        if s@.len() > 0 && s@[0] == '+' {
            assert(digits =~= s@.subrange(1, len as int));
        } else {
            assert(digits =~= s@.subrange(0, len as int));
        }
    }
    if start >= len {
        return None;
    }
    let mut acc: u64 = 0;
    let mut i: usize = start;
    while i < len
        invariant
            len == s@.len(),
            start <= i <= len,
            start == s@.len() - digits.len(),
            digits == s@.subrange(start as int, len as int),
            digits == unsigned_part(s@),
            forall|j: int| 0 <= j < i - start ==> is_digit(#[trigger] digits[j]),
            acc == digits_value(digits.take(i - start)),
            acc <= 255,
        decreases len - i,
    {
        let c = s.get_char(i);
        proof {
            assert(digits[i - start] == s@[i as int]);
            assert(digits[i - start] == c);
        }
        if !('0' <= c && c <= '9') {
            proof {
                assert(!is_digit(digits[i - start]));
            }
            return None;
        }
        let d: u64 = (c as u32 - '0' as u32) as u64;
        proof {
            assert(digits.take(i - start + 1).drop_last() =~= digits.take(i - start));
            assert(digits.take(i - start + 1).last() == c);
            assert(d == (c as nat - '0' as nat));
            assert(digits_value(digits.take(i - start + 1)) == acc * 10 + d);
        }
        acc = acc * 10 + d;
        if acc > 255 {
            proof {
                assert forall|j: int| 0 <= j < i - start + 1 implies is_digit(#[trigger] digits.take(i - start + 1)[j]) by {
                    if j == i - start {
                        assert(digits[j] == c);
                    }
                }
                if all_digits(digits) {
                    lemma_digits_value_grows(digits, i - start + 1);
                }
            }
            return None;
        }
        i = i + 1;
    }
    proof {
        assert(digits.take(len - start) =~= digits);
    }
    Some(acc as u8)
}

/// The text before the first `.`, or all of it when there is none.
pub open spec fn first_segment(s: Seq<char>) -> Seq<char> {
    if exists|i: int| 0 <= i < s.len() && s[i] == '.' {
        s.take(choose|i: int| 0 <= i < s.len() && s[i] == '.' && forall|j: int| 0 <= j < i ==> s[j] != '.')
    } else {
        s
    }
}

/// A host in the private range 172.16.0.0/12: it starts with `172.` and the
/// next dotted part is a number from 16 to 31.
pub open spec fn private_172_spec(host: Seq<char>) -> bool {
    &&& has_prefix(host, "172."@)
    &&& parse_u8_spec(first_segment(host.skip(4))) matches Some(n) && 16 <= n <= 31
}

/// Checks whether `host` is in the private range 172.16.0.0/12.
pub fn is_private_172_range(host: &str) -> (private: bool)
    ensures
        private == private_172_spec(host@),
{
    proof {
        reveal_strlit("172.");
    }
    if !starts_with(host, "172.") {
        return false;
    }
    let len = host.unicode_len();
    let rest = host.substring_char(4, len);
    let rest_len = rest.unicode_len();
    let mut i: usize = 0;
    while i < rest_len && rest.get_char(i) != '.'
        invariant
            rest_len == rest@.len(),
            i <= rest_len,
            forall|j: int| 0 <= j < i ==> rest@[j] != '.',
        decreases rest_len - i,
    {
        i = i + 1;
    }
    proof {
        assert(rest@ == host@.skip(4));
        if i < rest_len {
            assert(rest@[i as int] == '.');
            let w = choose|w: int| 0 <= w < rest@.len() && rest@[w] == '.' && forall|j: int| 0 <= j < w ==> rest@[j] != '.';
            assert(w == i) by {
                if w < i {
                    assert(rest@[w] != '.');
                }
                if w > i {
                    assert(rest@[i as int] != '.');
                }
            }
        }
    }
    let segment = rest.substring_char(0, i);
    proof {
        if i < rest_len {
            assert(segment@ =~= first_segment(rest@));
        } else {
            assert(segment@ =~= rest@);
        }
    }
    match parse_u8(segment) {
        Some(n) => 16 <= n && n <= 31,
        None => false,
    }
}

/// A local host: a loopback or unspecified name, or a private, link-local
/// or unique-local prefix; IPv6 hosts count bare or in the brackets a URL
/// host carries.
pub open spec fn local_address_spec(host: Seq<char>) -> bool {
    ||| host == "localhost"@
    ||| host == "127.0.0.1"@
    ||| host == "0.0.0.0"@
    ||| host == "::1"@
    ||| host == "[::1]"@
    ||| has_prefix(host, "192.168."@)
    ||| has_prefix(host, "10."@)
    ||| private_172_spec(host)
    ||| has_prefix(host, "169.254."@)
    ||| has_prefix(host, "fc00::"@)
    ||| has_prefix(host, "fe80::"@)
    ||| has_prefix(host, "[fc00::"@)
    ||| has_prefix(host, "[fe80::"@)
}

/// Checks whether `host` names a local address.
pub fn is_local_address(host: &str) -> (local: bool)
    ensures
        local == local_address_spec(host@),
{
    str_eq(host, "localhost") || str_eq(host, "127.0.0.1") || str_eq(host, "0.0.0.0")
        || str_eq(host, "::1") || str_eq(host, "[::1]") || starts_with(host, "192.168.")
        || starts_with(host, "10.") || is_private_172_range(host) || starts_with(host, "169.254.")
        || starts_with(host, "fc00::") || starts_with(host, "fe80::")
        || starts_with(host, "[fc00::") || starts_with(host, "[fe80::")
}

/// `r` is the Unix time in seconds for a clock reading of `millis`
/// milliseconds since the epoch; a reading of `None` (a clock before the
/// epoch) is an error.
pub open spec fn timestamp_of(millis: Option<u64>, r: Result<u64, Error>) -> bool {
    match millis {
        Some(ms) => r == Ok::<u64, Error>(ms / 1000),
        None => r matches Err(Error::SystemTime(m)) && m@ == "Failed to get current timestamp"@,
    }
}

/// The Unix time in seconds for a clock reading in milliseconds since the
/// epoch; `None`, a clock before the epoch, is an error.
pub fn timestamp_from_millis(millis: Option<u64>) -> (r: Result<u64, Error>)
    ensures
        timestamp_of(millis, r),
{
    match millis {
        Some(ms) => Ok(ms / 1000),
        None => Err(Error::SystemTime(String::from_str("Failed to get current timestamp"))),
    }
}

/// The current Unix time in seconds: the clock's reading, in whole
/// seconds; an error when the clock reads a time before the epoch.
pub fn get_current_timestamp() -> (now: Result<u64, Error>)
    ensures
        exists|millis: Option<u64>| #[trigger] timestamp_of(millis, now),
{
    let reading = unix_millis();
    let now = timestamp_from_millis(reading);
    assert(timestamp_of(reading, now));
    now
}

} // verus!
