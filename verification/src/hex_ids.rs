//! Identifiers and hashes written as hexadecimal text, as they are
//! exchanged with relays.

use vstd::prelude::*;
use crate::crypto::{hex_bytes, hex_decode, hex_digit, hex_encode, hex_text, hex_value, sha256_digest};
use crate::types::{CommitmentHash, RelayId};
use vstd::string::StringSliceAdditionalSpecFns;

verus! {

/// Every character of `s` is a hexadecimal digit.
pub open spec fn all_hex_digits(s: Seq<char>) -> bool {
    forall|i: int| 0 <= i < s.len() ==> #[trigger] hex_value(s[i]) is Some
}

/// An even number of hexadecimal digits decodes to half as many bytes.
pub proof fn lemma_hex_digits_decode(s: Seq<char>)
    requires
        s.len() % 2 == 0,
        all_hex_digits(s),
    ensures
        hex_bytes(s) matches Some(b) && b.len() == s.len() / 2,
    decreases s.len(),
{
    if s.len() > 0 {
        let prefix = s.subrange(0, s.len() - 2);
        assert forall|i: int| 0 <= i < prefix.len() implies #[trigger] hex_value(prefix[i]) is Some by {
            assert(prefix[i] == s[i]);
        }
        lemma_hex_digits_decode(prefix);
        assert(hex_value(s[s.len() - 2]) is Some);
        assert(hex_value(s[s.len() - 1]) is Some);
    }
}

/// Whether `c` is a hexadecimal digit.
fn is_hex_digit(c: char) -> (digit: bool)
    ensures
        digit == (hex_value(c) is Some),
{
    ('0' <= c && c <= '9') || ('a' <= c && c <= 'f') || ('A' <= c && c <= 'F')
}

/// Whether `text` is exactly 64 hexadecimal digits.
fn is_hex_word(text: &str) -> (word: bool)
    ensures
        word == (text@.len() == 64 && all_hex_digits(text@)),
{
    let n = text.unicode_len();
    if n != 64 {
        return false;
    }
    let mut i: usize = 0;
    while i < n
        invariant
            n == text@.len(),
            i <= n,
            forall|j: int| 0 <= j < i ==> #[trigger] hex_value(text@[j]) is Some,
        decreases n - i,
    {
        if !is_hex_digit(text.get_char(i)) {
            return false;
        }
        i = i + 1;
    }
    true
}

/// Copies 32 bytes into an array.
fn word_of(bytes: &Vec<u8>) -> (word: [u8; 32])
    requires
        bytes@.len() == 32,
    ensures
        word@ == bytes@,
{
    let mut word: [u8; 32] = [0u8; 32];
    let mut i: usize = 0;
    while i < 32
        invariant
            i <= 32,
            bytes@.len() == 32,
            forall|j: int| 0 <= j < i ==> word[j] == bytes@[j],
        decreases 32 - i,
    {
        word[i] = bytes[i];
        i = i + 1;
    }
    assert(word@ =~= bytes@);
    word
}

impl RelayId {
    /// The identifier a text names: 64 hexadecimal digits are the
    /// identifier's bytes; any other text is a relay URL, whose digest is
    /// the identifier.
    pub fn from_text(text: &str) -> (id: RelayId)
        ensures
            text@.len() == 64 && all_hex_digits(text@) ==> hex_bytes(text@) == Some(id.spec_bytes()@),
            !(text@.len() == 64 && all_hex_digits(text@)) ==> id.spec_bytes()@ == sha256_digest(text.spec_bytes()),
    {
        if is_hex_word(text) {
            proof { lemma_hex_digits_decode(text@); }
            match hex_decode(text) {
                Ok(bytes) => RelayId::from_bytes(word_of(&bytes)),
                Err(_) => RelayId::from_url(text),
            }
        } else {
            RelayId::from_url(text)
        }
    }

    /// The identifier as lowercase hexadecimal digits.
    pub fn to_hex(&self) -> (text: String)
        ensures
            text@ == hex_text(self.spec_bytes()@),
    {
        hex_encode(self.as_bytes())
    }
}

impl CommitmentHash {
    /// The hash that hexadecimal text names: it must decode to 32 bytes.
    pub fn from_hex(text: &str) -> (result: Result<CommitmentHash, String>)
        ensures
            result is Ok <==> (hex_bytes(text@) matches Some(b) && b.len() == 32),
            result matches Ok(h) ==> hex_bytes(text@) == Some(h.spec_bytes()@),
            (hex_bytes(text@) matches Some(b) && b.len() != 32) ==> (result matches Err(m) && m@ == "CommitmentHash must be 32 bytes"@),
    {
        match hex_decode(text) {
            Err(e) => Err(e),
            Ok(bytes) => {
                if bytes.len() != 32 {
                    return Err(String::from_str("CommitmentHash must be 32 bytes"));
                }
                Ok(CommitmentHash::from_bytes(word_of(&bytes)))
            },
        }
    }

    /// The hash as lowercase hexadecimal digits.
    pub fn to_hex(&self) -> (text: String)
        ensures
            text@ == hex_text(self.spec_bytes()@),
    {
        hex_encode(self.as_bytes())
    }
}

/// One byte written as two hexadecimal digits reads back as itself.
proof fn lemma_byte_digits(x: u8)
    ensures
        hex_value(hex_digit(x / 16)) == Some(x / 16),
        hex_value(hex_digit(x % 16)) == Some(x % 16),
        (x / 16) * 16 + x % 16 == x,
{
}

/// Writing bytes as hexadecimal text and reading the text back gives the
/// same bytes.
pub proof fn law_hex_round_trip(bytes: Seq<u8>)
    ensures
        hex_text(bytes).len() == 2 * bytes.len(),
        all_hex_digits(hex_text(bytes)),
        hex_bytes(hex_text(bytes)) == Some(bytes),
    decreases bytes.len(),
{
    if bytes.len() > 0 {
        let rest = bytes.drop_last();
        let x = bytes.last();
        law_hex_round_trip(rest);
        lemma_byte_digits(x);
        let text = hex_text(bytes);
        assert(text == hex_text(rest) + seq![hex_digit(x / 16), hex_digit(x % 16)]);
        assert(text.subrange(0, text.len() - 2) =~= hex_text(rest));
        assert(text[text.len() - 2] == hex_digit(x / 16));
        assert(text[text.len() - 1] == hex_digit(x % 16));
        assert(rest.push(x) =~= bytes);
        assert forall|i: int| 0 <= i < text.len() implies #[trigger] hex_value(text[i]) is Some by {
            if i < text.len() - 2 {
                assert(text[i] == hex_text(rest)[i]);
            }
        }
    }
}

/// A commitment hash written with `to_hex` is read back by `from_hex` as
/// the same hash: the text decodes to its 32 bytes.
pub proof fn law_commitment_hash_hex_round_trip(hash: CommitmentHash)
    ensures
        hex_bytes(hex_text(hash.spec_bytes()@)) == Some(hash.spec_bytes()@),
        hash.spec_bytes()@.len() == 32,
{
    law_hex_round_trip(hash.spec_bytes()@);
}

/// A relay identifier written with `to_hex` is read back by `from_text`
/// as the same identifier: the text is 64 hexadecimal digits that decode
/// to its bytes.
pub proof fn law_relay_id_hex_round_trip(id: RelayId)
    ensures
        hex_text(id.spec_bytes()@).len() == 64,
        all_hex_digits(hex_text(id.spec_bytes()@)),
        hex_bytes(hex_text(id.spec_bytes()@)) == Some(id.spec_bytes()@),
{
    law_hex_round_trip(id.spec_bytes()@);
}

} // verus!
