//! Integrity of a downloaded binary: its SHA-256 digest against the digest
//! the release source publishes.

use sha2::Digest;
use sha2::Sha256;
use vstd::prelude::*;

verus! {

/// Number of bytes in a digest.
pub const DIGEST_LENGTH: usize = 32;

/// The SHA-256 digest of `data`.
pub uninterp spec fn sha256(data: Seq<u8>) -> Seq<u8>;

/// Computes the SHA-256 digest of `data` with sha2's `Sha256::digest`.  The
/// digest depends on the bytes alone and is named `sha256` here; that it has
/// 32 bytes is in its type.  Nothing of this is proved.
#[verifier::external_body]
fn sha256_digest(data: &[u8]) -> (digest: [u8; 32])
    ensures
        digest@ == sha256(data@),
{
    Sha256::digest(data).into()
}

/// Whether two byte strings are the same.
pub fn digests_match(actual: &[u8], expected: &[u8]) -> (same: bool)
    ensures
        same == (actual@ == expected@),
{
    if actual.len() != expected.len() {
        return false;
    }
    let mut i: usize = 0;
    while i < actual.len()
        invariant
            actual@.len() == expected@.len(),
            i <= actual@.len(),
            forall|j: int| 0 <= j < i ==> actual@[j] == expected@[j],
        decreases actual@.len() - i,
    {
        if actual[i] != expected[i] {
            return false;
        }
        i = i + 1;
    }
    assert(actual@ =~= expected@);
    true
}

/// Whether `payload` is the file the release source announced: its SHA-256
/// digest is `expected`.
pub fn payload_is_intact(payload: &[u8], expected: &[u8]) -> (intact: bool)
    ensures
        intact == (sha256(payload@) == expected@),
{
    let digest = sha256_digest(payload);
    digests_match(digest.as_slice(), expected)
}

/// The value of a hexadecimal digit, of either case.
pub open spec fn hex_value(c: u8) -> Option<u8> {
    if 0x30 <= c <= 0x39 {
        Some((c - 0x30) as u8)
    } else if 0x61 <= c <= 0x66 {
        Some((c - 0x61 + 10) as u8)
    } else if 0x41 <= c <= 0x46 {
        Some((c - 0x41 + 10) as u8)
    } else {
        None
    }
}

/// Text is hexadecimal when it is made of pairs of hexadecimal digits.
pub open spec fn is_hex(text: Seq<u8>) -> bool {
    text.len() % 2 == 0 && forall|i: int| 0 <= i < text.len() ==> hex_value(#[trigger] text[i])
        is Some
}

/// The bytes that hexadecimal text stands for: each pair of digits is one
/// byte, the first digit its upper half.
pub open spec fn hex_bytes(text: Seq<u8>) -> Seq<u8> {
    Seq::new(
        text.len() / 2,
        |i: int| (hex_value(text[2 * i]).unwrap() * 16 + hex_value(text[2 * i + 1]).unwrap()) as u8,
    )
}

/// The value of a hexadecimal digit, of either case.
pub fn hex_digit(c: u8) -> (value: Option<u8>)
    ensures
        value == hex_value(c),
        value matches Some(v) ==> v < 16,
{
    if 0x30 <= c && c <= 0x39 {
        Some(c - 0x30)
    } else if 0x61 <= c && c <= 0x66 {
        Some(c - 0x61 + 10)
    } else if 0x41 <= c && c <= 0x46 {
        Some(c - 0x41 + 10)
    } else {
        None
    }
}

/// Decodes hexadecimal text.  Text that is not hexadecimal has no bytes.
pub fn decode_hex(text: &[u8]) -> (decoded: Option<Vec<u8>>)
    ensures
        decoded is Some <==> is_hex(text@),
        decoded matches Some(bytes) ==> bytes@ == hex_bytes(text@),
{
    let n = text.len();
    if n % 2 != 0 {
        return None;
    }
    let mut bytes: Vec<u8> = Vec::with_capacity(n / 2);
    let mut i: usize = 0;
    while i < n
        invariant
            n == text@.len(),
            n % 2 == 0,
            i % 2 == 0,
            i <= n,
            bytes@.len() == i / 2,
            forall|j: int| 0 <= j < i ==> hex_value(#[trigger] text@[j]) is Some,
            forall|k: int| 0 <= k < bytes@.len() ==> #[trigger] bytes@[k] == hex_bytes(text@)[k],
        decreases n - i,
    {
        let high = match hex_digit(text[i]) {
            Some(v) => v,
            None => {
                return None;
            },
        };
        let low = match hex_digit(text[i + 1]) {
            Some(v) => v,
            None => {
                return None;
            },
        };
        assert(2 * (i as int / 2) == i);
        bytes.push(high * 16 + low);
        i = i + 2;
    }
    assert(bytes@ =~= hex_bytes(text@));
    Some(bytes)
}

/// Decodes the digest a release source publishes: 64 hexadecimal digits.
/// Anything else is no digest.
pub fn decode_digest(text: &[u8]) -> (decoded: Option<Vec<u8>>)
    ensures
        decoded is Some <==> is_hex(text@) && text@.len() == 2 * DIGEST_LENGTH,
        decoded matches Some(bytes) ==> bytes@ == hex_bytes(text@) && bytes@.len()
            == DIGEST_LENGTH,
{
    if text.len() != 2 * DIGEST_LENGTH {
        return None;
    }
    decode_hex(text)
}

} // verus!
