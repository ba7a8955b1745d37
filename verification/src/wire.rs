//! Registrations as relays send them: decimal numbers and hexadecimal
//! byte strings, read into the library's types.

use vstd::prelude::*;
use crate::cli::{strip_hex_prefixes, trim_hex_prefixes};
use crate::crypto::{hex_bytes, hex_decode};
use crate::infrastructure::utils::{all_digits, digits_value, is_digit, lemma_digits_value_grows, unsigned_part};
use crate::types::{Address, BlsPublicKey, BlsSignature, ValidatorRegistration, ValidatorRegistrationMessage};

verus! {

/// What `str::parse::<u64>` gives: an optional `+`, then one or more
/// decimal digits whose value fits in a `u64`.
pub open spec fn parse_u64_spec(s: Seq<char>) -> Option<u64> {
    if unsigned_part(s).len() > 0 && all_digits(unsigned_part(s)) && digits_value(unsigned_part(s)) <= u64::MAX {
        Some(digits_value(unsigned_part(s)) as u64)
    } else {
        None
    }
}

/// Reads a `u64` the way `str::parse::<u64>` does.
pub fn parse_u64(s: &str) -> (value: Option<u64>)
    ensures
        value == parse_u64_spec(s@),
{
    let len = s.unicode_len();
    let mut start: usize = 0;
    if len > 0 && s.get_char(0) == '+' {
        start = 1;
    }
    let ghost digits = unsigned_part(s@);
    proof {
        if s@.len() > 0 && s@[0] == '+' {
            assert(digits =~= s@.subrange(1, len as int));
        } else {
            assert(digits =~= s@.subrange(0, len as int));
        }
    }
    if start >= len {
        return None;
    }
    let mut acc: u64 = 0;
    let mut i: usize = start;
    while i < len
        invariant
            len == s@.len(),
            start <= i <= len,
            start == s@.len() - digits.len(),
            digits == s@.subrange(start as int, len as int),
            digits == unsigned_part(s@),
            forall|j: int| 0 <= j < i - start ==> is_digit(#[trigger] digits[j]),
            acc == digits_value(digits.take(i - start)),
        decreases len - i,
    {
        let c = s.get_char(i);
        proof {
            assert(digits[i - start] == s@[i as int]);
        }
        if !('0' <= c && c <= '9') {
            proof {
                assert(!is_digit(digits[i - start]));
            }
            return None;
        }
        let d: u64 = (c as u32 - '0' as u32) as u64;
        proof {
            assert(digits.take(i - start + 1).drop_last() =~= digits.take(i - start));
            assert(digits.take(i - start + 1).last() == c);
            assert(digits_value(digits.take(i - start + 1)) == acc * 10 + d);
        }
        if acc > (u64::MAX - d) / 10 {
            proof {
                assert(acc * 10 + d > u64::MAX) by (nonlinear_arith)
                    requires acc > (u64::MAX - d) / 10, d <= 9;
                assert forall|j: int| 0 <= j < i - start + 1 implies is_digit(#[trigger] digits.take(i - start + 1)[j]) by {
                    if j == i - start {
                        assert(digits[j] == c);
                    }
                }
                if all_digits(digits) {
                    lemma_digits_value_grows(digits, i - start + 1);
                }
            }
            return None;
        }
        proof {
            assert(acc * 10 + d <= u64::MAX) by (nonlinear_arith)
                requires acc <= (u64::MAX - d) / 10, d <= 9;
        }
        acc = acc * 10 + d;
        i = i + 1;
    }
    proof {
        assert(digits.take(len - start) =~= digits);
    }
    Some(acc)
}

/// Exactly `n` bytes written in hexadecimal, leading `0x` allowed.
pub open spec fn hex_of_len(text: Seq<char>, n: nat) -> Option<Seq<u8>> {
    match hex_bytes(strip_hex_prefixes(text)) {
        Some(b) => if b.len() == n { Some(b) } else { None },
        None => None,
    }
}

/// Reads exactly `n` bytes written in hexadecimal, leading `0x` allowed.
fn hex_field(text: &str, n: usize) -> (bytes: Option<Vec<u8>>)
    ensures
        match bytes {
            Some(b) => hex_of_len(text@, n as nat) == Some(b@),
            None => hex_of_len(text@, n as nat) is None,
        },
{
    match hex_decode(trim_hex_prefixes(text)) {
        Ok(b) => if b.len() == n { Some(b) } else { None },
        Err(_) => None,
    }
}

/// The error naming the first of a registration's text fields that cannot
/// be read, in the order fee recipient, gas limit, timestamp, validator key,
/// signature; `None` when all can be read.
pub open spec fn registration_text_error(
    fee_recipient: Seq<char>,
    gas_limit: Seq<char>,
    timestamp: Seq<char>,
    pubkey: Seq<char>,
    signature: Seq<char>,
) -> Option<Seq<char>> {
    if hex_of_len(fee_recipient, 20) is None {
        Some("Invalid fee recipient"@)
    } else if parse_u64_spec(gas_limit) is None {
        Some("Invalid gas limit"@)
    } else if parse_u64_spec(timestamp) is None {
        Some("Invalid timestamp"@)
    } else if hex_of_len(pubkey, 48) is None {
        Some("Invalid validator public key"@)
    } else if hex_of_len(signature, 96) is None {
        Some("Invalid signature"@)
    } else {
        None
    }
}

/// The registration that a relay's text fields describe: fee recipient,
/// gas limit, timestamp, validator key and signature. The error names the
/// first field that could not be read.
pub fn registration_from_text(
    fee_recipient: &str,
    gas_limit: &str,
    timestamp: &str,
    pubkey: &str,
    signature: &str,
) -> (result: Result<ValidatorRegistration, String>)
    ensures
        result is Ok <==> (hex_of_len(fee_recipient@, 20) is Some && parse_u64_spec(gas_limit@) is Some
            && parse_u64_spec(timestamp@) is Some && hex_of_len(pubkey@, 48) is Some && hex_of_len(signature@, 96) is Some),
        result matches Ok(r) ==> {
            &&& hex_of_len(fee_recipient@, 20) == Some(r.message.fee_recipient.0@)
            &&& parse_u64_spec(gas_limit@) == Some(r.message.gas_limit)
            &&& parse_u64_spec(timestamp@) == Some(r.message.timestamp)
            &&& hex_of_len(pubkey@, 48) == Some(r.message.pubkey.0@)
            &&& hex_of_len(signature@, 96) == Some(r.signature.0@)
        },
        result matches Err(m) ==> registration_text_error(fee_recipient@, gas_limit@, timestamp@, pubkey@, signature@)
            == Some(m@),
{
    let fee = match hex_field(fee_recipient, 20) {
        Some(b) => b,
        None => return Err(String::from_str("Invalid fee recipient")),
    };
    let gas = match parse_u64(gas_limit) {
        Some(g) => g,
        None => return Err(String::from_str("Invalid gas limit")),
    };
    let ts = match parse_u64(timestamp) {
        Some(t) => t,
        None => return Err(String::from_str("Invalid timestamp")),
    };
    let key = match hex_field(pubkey, 48) {
        Some(b) => b,
        None => return Err(String::from_str("Invalid validator public key")),
    };
    let sig = match hex_field(signature, 96) {
        Some(b) => b,
        None => return Err(String::from_str("Invalid signature")),
    };
    let mut fee_bytes: [u8; 20] = [0u8; 20];
    let mut i: usize = 0;
    while i < 20
        invariant
            i <= 20,
            fee@.len() == 20,
            forall|j: int| 0 <= j < i ==> fee_bytes[j] == fee@[j],
        decreases 20 - i,
    {
        fee_bytes[i] = fee[i];
        i = i + 1;
    }
    let mut key_bytes: [u8; 48] = [0u8; 48];
    let mut j: usize = 0;
    while j < 48
        invariant
            j <= 48,
            key@.len() == 48,
            forall|k: int| 0 <= k < j ==> key_bytes[k] == key@[k],
        decreases 48 - j,
    {
        key_bytes[j] = key[j];
        j = j + 1;
    }
    let mut sig_bytes: [u8; 96] = [0u8; 96];
    let mut k: usize = 0;
    while k < 96
        invariant
            k <= 96,
            sig@.len() == 96,
            forall|m: int| 0 <= m < k ==> sig_bytes[m] == sig@[m],
        decreases 96 - k,
    {
        sig_bytes[k] = sig[k];
        k = k + 1;
    }
    assert(fee_bytes@ =~= fee@);
    assert(key_bytes@ =~= key@);
    assert(sig_bytes@ =~= sig@);
    Ok(ValidatorRegistration {
        message: ValidatorRegistrationMessage {
            fee_recipient: Address(fee_bytes),
            gas_limit: gas,
            timestamp: ts,
            pubkey: BlsPublicKey(key_bytes),
        },
        signature: BlsSignature(sig_bytes),
    })
}

} // verus!
