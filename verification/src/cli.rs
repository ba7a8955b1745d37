//! What the operator command line computes: validator keys read from
//! hexadecimal text, and the unsigned test registration it prints.

use vstd::prelude::*;
use crate::crypto::{hex_bytes, hex_decode, hex_encode, hex_text};
use crate::text::{decimal, has_prefix, u64_to_decimal};
use crate::u256::U256;
use crate::types::{Address, BlsPublicKey, BlsSignature, ValidatorRegistration, ValidatorRegistrationMessage};

verus! {

/// Key of the test validator.
pub const TEST_VALIDATOR_PUBKEY: [u8; 48] = [
    0xb0, 0x60, 0x57, 0x2f, 0x53, 0x5b, 0xa5, 0x61, 0x5b, 0x87, 0x4e, 0xbf, 0xef, 0x75, 0x7f, 0xbe,
    0x68, 0x25, 0x35, 0x2a, 0xd2, 0x57, 0xe3, 0x1d, 0x72, 0x4e, 0x57, 0xfe, 0x25, 0xa0, 0x67, 0xa1,
    0x3c, 0xfd, 0xdd, 0x0f, 0x00, 0xcb, 0x17, 0xbf, 0x3a, 0x3d, 0x2e, 0x90, 0x1a, 0x38, 0x0c, 0x17,
];

/// Fee recipient of the test registration: twenty `0xaa` bytes.
pub const TEST_FEE_RECIPIENT: [u8; 20] = [
    0xaa, 0xaa, 0xaa, 0xaa, 0xaa, 0xaa, 0xaa, 0xaa, 0xaa, 0xaa, 0xaa, 0xaa, 0xaa, 0xaa, 0xaa, 0xaa, 0xaa, 0xaa, 0xaa, 0xaa,
];

/// Gas limit of the test registration when none is given.
pub const DEFAULT_GAS_LIMIT: u64 = 30_000_000;

/// `s` without any number of leading `0x`.
pub open spec fn strip_hex_prefixes(s: Seq<char>) -> Seq<char>
    decreases s.len(),
{
    if s.len() >= 2 && s[0] == '0' && s[1] == 'x' { strip_hex_prefixes(s.subrange(2, s.len() as int)) } else { s }
}

/// `text` without any number of leading `0x`.
pub fn trim_hex_prefixes(text: &str) -> (rest: &str)
    ensures
        rest@ == strip_hex_prefixes(text@),
{
    let n = text.unicode_len();
    let mut start: usize = 0;
    assert(text@.subrange(0, n as int) =~= text@);
    while n - start >= 2 && text.get_char(start) == '0' && text.get_char(start + 1) == 'x'
        invariant
            n == text@.len(),
            start <= n,
            strip_hex_prefixes(text@.subrange(start as int, n as int)) == strip_hex_prefixes(text@),
        decreases n - start,
    {
        proof {
            let s = text@.subrange(start as int, n as int);
            assert(s[0] == text@[start as int]);
            assert(s[1] == text@[start + 1]);
            assert(s.subrange(2, s.len() as int) =~= text@.subrange(start + 2, n as int));
        }
        start = start + 2;
    }
    proof {
        let s = text@.subrange(start as int, n as int);
        if s.len() >= 2 {
            assert(s[0] == text@[start as int]);
            assert(s[1] == text@[start + 1]);
        }
    }
    text.substring_char(start, n)
}

/// The text is a validator key: hexadecimal digits, leading `0x` allowed,
/// that encode exactly 48 bytes.
pub open spec fn pubkey_text_valid(text: Seq<char>) -> bool {
    hex_bytes(strip_hex_prefixes(text)) matches Some(b) && b.len() == 48
}

/// `m` is the error reading `text` as a validator key gives: the hex
/// decoder's complaint after `Invalid validator pubkey: ` when the digits
/// cannot be read, else the length complaint.
pub open spec fn pubkey_error(text: Seq<char>, m: Seq<char>) -> bool {
    if hex_bytes(strip_hex_prefixes(text)) is None {
        has_prefix(m, "Invalid validator pubkey: "@)
    } else {
        m == "Validator pubkey must be 48 bytes"@
    }
}

/// Reads a validator key from hexadecimal text, leading `0x` allowed:
/// the digits must encode exactly 48 bytes.
pub fn parse_validator_pubkey(text: &str) -> (result: Result<BlsPublicKey, String>)
    ensures
        result matches Ok(k) ==> hex_bytes(strip_hex_prefixes(text@)) == Some(k.0@),
        pubkey_text_valid(text@) ==> result is Ok,
        result matches Err(m) ==> pubkey_error(text@, m@),
{
    let digits = trim_hex_prefixes(text);
    match hex_decode(digits) {
        Err(e) => {
            let mut m = String::from_str("Invalid validator pubkey: ");
            let ghost prefix = m@;
            m.append(e.as_str());
            proof {
                reveal_strlit("Invalid validator pubkey: ");
                assert(m@.subrange(0, prefix.len() as int) =~= prefix);
            }
            Err(m)
        },
        Ok(bytes) => {
            if bytes.len() != 48 {
                return Err(String::from_str("Validator pubkey must be 48 bytes"));
            }
            let mut raw: [u8; 48] = [0u8; 48];
            let mut i: usize = 0;
            while i < 48
                invariant
                    i <= 48,
                    bytes@.len() == 48,
                    forall|j: int| 0 <= j < i ==> raw[j] == bytes@[j],
                decreases 48 - i,
            {
                raw[i] = bytes[i];
                i = i + 1;
            }
            assert(raw@ =~= bytes@);
            Ok(BlsPublicKey(raw))
        },
    }
}

/// Reads each validator key in turn; the first one refused gives the error.
pub fn parse_validator_pubkeys(texts: &Vec<String>) -> (result: Result<Vec<BlsPublicKey>, String>)
    ensures
        result matches Ok(keys) ==> keys@.len() == texts@.len()
            && forall|i: int| 0 <= i < keys@.len() ==> hex_bytes(strip_hex_prefixes(texts@[i]@)) == Some((#[trigger] keys@[i]).0@),
        result is Ok <==> forall|i: int| 0 <= i < texts@.len() ==> pubkey_text_valid(#[trigger] texts@[i]@),
        result matches Err(m) ==> exists|i: int| {
            &&& 0 <= i < texts@.len()
            &&& !pubkey_text_valid(#[trigger] texts@[i]@)
            &&& pubkey_error(texts@[i]@, m@)
            &&& forall|j: int| 0 <= j < i ==> pubkey_text_valid(#[trigger] texts@[j]@)
        },
{
    let mut keys: Vec<BlsPublicKey> = Vec::new();
    let mut i: usize = 0;
    while i < texts.len()
        invariant
            i <= texts@.len(),
            keys@.len() == i,
            forall|j: int| 0 <= j < i ==> hex_bytes(strip_hex_prefixes(texts@[j]@)) == Some((#[trigger] keys@[j]).0@),
            forall|j: int| 0 <= j < i ==> pubkey_text_valid(#[trigger] texts@[j]@),
        decreases texts@.len() - i,
    {
        match parse_validator_pubkey(texts[i].as_str()) {
            Err(m) => {
                assert(!pubkey_text_valid(texts@[i as int]@));
                return Err(m);
            },
            Ok(k) => keys.push(k),
        }
        i = i + 1;
    }
    Ok(keys)
}

/// `0x` and the lowercase hexadecimal digits of `bytes`, as the command
/// line prints hashes and encodings.
pub fn hex_with_prefix(bytes: &[u8]) -> (text: String)
    ensures
        text@ == "0x"@ + hex_text(bytes@),
{
    let mut text = String::from_str("0x");
    text.append(hex_encode(bytes).as_str());
    text
}

/// Wei in one ether.
pub const WEI_PER_ETHER: u64 = 1_000_000_000_000_000_000;

/// Wei in a ten-thousandth of an ether.
pub const WEI_PER_TEN_THOUSANDTH: u64 = 100_000_000_000_000;

/// `n` in decimal, padded with zeros to four digits.
pub open spec fn pad4(n: nat) -> Seq<char> {
    if n < 10 {
        "000"@ + decimal(n)
    } else if n < 100 {
        "00"@ + decimal(n)
    } else if n < 1000 {
        "0"@ + decimal(n)
    } else {
        decimal(n)
    }
}

/// An amount of wei in ether: the whole ethers, a point, and four digits
/// of the fraction, cut (not rounded).
pub open spec fn ether_text(wei: nat) -> Seq<char> {
    decimal(wei / (WEI_PER_ETHER as nat)) + "."@ + pad4((wei % (WEI_PER_ETHER as nat)) / (WEI_PER_TEN_THOUSANDTH as nat))
}

/// Renders an amount of wei in ether with four decimals.
pub fn format_ether(wei: &U256) -> (text: String)
    ensures
        text@ == ether_text(wei.value()),
{
    let (ether, rest) = wei.div_rem_u64(WEI_PER_ETHER);
    proof {
        let d = WEI_PER_ETHER as nat;
        assert(ether.value() == wei.value() / d && rest == wei.value() % d) by (nonlinear_arith)
            requires ether.value() * d + rest == wei.value(), rest < d, d > 0;
    }
    let decimals = rest / WEI_PER_TEN_THOUSANDTH;
    let mut text = ether.to_decimal();
    text.append(".");
    if decimals < 10 {
        text.append("000");
    } else if decimals < 100 {
        text.append("00");
    } else if decimals < 1000 {
        text.append("0");
    }
    text.append(u64_to_decimal(decimals).as_str());
    text
}

/// The unsigned test registration: the test validator and fee recipient,
/// the given gas limit (thirty million by default) and timestamp, and an
/// all-zero signature.
pub fn test_registration(gas_limit: Option<u64>, timestamp: u64) -> (registration: ValidatorRegistration)
    ensures
        registration.message.pubkey.0 == TEST_VALIDATOR_PUBKEY,
        registration.message.fee_recipient.0 == TEST_FEE_RECIPIENT,
        registration.message.gas_limit == match gas_limit {
            Some(g) => g,
            None => DEFAULT_GAS_LIMIT,
        },
        registration.message.timestamp == timestamp,
        forall|i: int| 0 <= i < 96 ==> registration.signature.0[i] == 0,
{
    let gas = match gas_limit {
        Some(g) => g,
        None => DEFAULT_GAS_LIMIT,
    };
    ValidatorRegistration {
        message: ValidatorRegistrationMessage {
            fee_recipient: Address(TEST_FEE_RECIPIENT),
            gas_limit: gas,
            timestamp,
            pubkey: BlsPublicKey(TEST_VALIDATOR_PUBKEY),
        },
        signature: BlsSignature([0u8; 96]),
    }
}

} // verus!
