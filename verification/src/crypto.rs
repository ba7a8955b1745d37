//! Hashing and signature checks through `sha2`, `tree_hash` and `blst`.

use vstd::prelude::*;

verus! {

/// The SHA-256 digest of `data`.
pub uninterp spec fn sha256_digest(data: Seq<u8>) -> Seq<u8>;

/// SHA-256 of `data` through `sha2::Sha256` (`new`, `update`,
/// `finalize`). The digest is named by `sha256_digest`.
#[verifier::external_body]
pub(crate) fn sha256(data: &[u8]) -> (digest: [u8; 32])
    ensures
        digest@ == sha256_digest(data@),
{
    let mut hasher = <sha2::Sha256 as sha2::Digest>::new();
    sha2::Digest::update(&mut hasher, data);
    sha2::Digest::finalize(hasher).into()
}

/// The SSZ Merkle root `tree_hash::merkle_root` gives for `bytes` split
/// into 32-byte leaves, with at least `minimum_leaf_count` leaves.
pub uninterp spec fn merkle_root_of(bytes: Seq<u8>, minimum_leaf_count: nat) -> Seq<u8>;

/// Merkle root through `tree_hash::merkle_root`. That function computes
/// `next_power_of_two` of the leaf count, so the count is kept to half the
/// `usize` range.
#[verifier::external_body]
pub(crate) fn merkle_root(bytes: &[u8], minimum_leaf_count: usize) -> (root: [u8; 32])
    requires
        minimum_leaf_count <= usize::MAX / 2,
        bytes@.len() <= usize::MAX / 2,
    ensures
        root@ == merkle_root_of(bytes@, minimum_leaf_count as nat),
{
    tree_hash::merkle_root(bytes, minimum_leaf_count).0
}

/// Whether `signature` is a valid BLS signature by `pubkey` over
/// `message` with domain separation tag `dst`.
pub uninterp spec fn bls_signature_valid(signature: Seq<u8>, pubkey: Seq<u8>, message: Seq<u8>, dst: Seq<u8>) -> bool;

/// BLS verification through `blst::min_pk`: `Signature::from_bytes`,
/// `PublicKey::from_bytes`, then `Signature::verify` with signature and
/// key group checks on. Bytes that do not decode give `false`, as does a
/// failed check; the answer is named by `bls_signature_valid`.
#[verifier::external_body]
pub(crate) fn bls_verify(signature: &[u8; 96], pubkey: &[u8; 48], message: &[u8; 32], dst: &[u8]) -> (valid: bool)
    ensures
        valid == bls_signature_valid(signature@, pubkey@, message@, dst@),
{
    let sig = match blst::min_pk::Signature::from_bytes(signature) {
        Ok(sig) => sig,
        Err(_) => return false,
    };
    let pk = match blst::min_pk::PublicKey::from_bytes(pubkey) {
        Ok(pk) => pk,
        Err(_) => return false,
    };
    matches!(sig.verify(true, message, dst, &[], &pk, true), blst::BLST_ERROR::BLST_SUCCESS)
}

/// The lowercase hexadecimal text of `bytes`.
pub open spec fn hex_text(bytes: Seq<u8>) -> Seq<char>
    decreases bytes.len(),
{
    if bytes.len() == 0 {
        Seq::empty()
    } else {
        hex_text(bytes.drop_last()) + seq![hex_digit(bytes.last() / 16), hex_digit(bytes.last() % 16)]
    }
}

/// The lowercase hexadecimal digit of `d` (below 16).
pub open spec fn hex_digit(d: u8) -> char {
    if d < 10 { (48 + d) as char } else { (87 + d) as char }
}

/// Lowercase hexadecimal rendering through `hex::encode`, which writes two
/// lowercase digits per byte, high nibble first.
#[verifier::external_body]
pub(crate) fn hex_encode(bytes: &[u8]) -> (text: String)
    ensures
        text@ == hex_text(bytes@),
{
    hex::encode(bytes)
}

/// The value of a hexadecimal digit, either case.
pub open spec fn hex_value(c: char) -> Option<u8> {
    if '0' <= c <= '9' {
        Some((c as int - 48) as u8)
    } else if 'a' <= c <= 'f' {
        Some((c as int - 87) as u8)
    } else if 'A' <= c <= 'F' {
        Some((c as int - 55) as u8)
    } else {
        None
    }
}

/// The bytes that hexadecimal text stands for: an even number of digits of
/// either case, two per byte, high nibble first.
pub open spec fn hex_bytes(text: Seq<char>) -> Option<Seq<u8>>
    decreases text.len(),
{
    if text.len() == 0 {
        Some(Seq::empty())
    } else if text.len() < 2 {
        None
    } else {
        match (hex_bytes(text.subrange(0, text.len() - 2)), hex_value(text[text.len() - 2]), hex_value(text[text.len() - 1])) {
            (Some(prefix), Some(hi), Some(lo)) => Some(prefix.push((hi * 16 + lo) as u8)),
            _ => None,
        }
    }
}

/// Hexadecimal decoding through `hex::decode`, which takes an even number
/// of digits of either case and fails on anything else; the error is
/// rendered as text.
#[verifier::external_body]
pub(crate) fn hex_decode(text: &str) -> (bytes: Result<Vec<u8>, String>)
    ensures
        match bytes {
            Ok(b) => hex_bytes(text@) == Some(b@),
            Err(_) => hex_bytes(text@) is None,
        },
{
    hex::decode(text).map_err(|e| e.to_string())
}

} // verus!
