//! Secrets: Base32 text that stands for the key material of an account.

use crate::error::{Error, ErrorView};
use vstd::prelude::*;

verus! {

/// The least number of key bytes that a secret must decode to (128 bits).
pub const MIN_KEY_BYTES: usize = 16;

/// The bytes that `base32::decode` reads from `text` in the RFC 4648
/// alphabet, with padding or without, or `None` where it rejects the text.
pub uninterp spec fn base32_decoded(padding: bool, text: Seq<char>) -> Option<Seq<u8>>;

/// Whether a text is short enough for its length times five to be computed,
/// as decoding does.
pub open spec fn decodable_length(text: Seq<char>) -> bool {
    text.len() * 5 <= usize::MAX
}

/// The view of decoded bytes, if there are any.
pub open spec fn bytes_of(decoded: Option<Vec<u8>>) -> Option<Seq<u8>> {
    match decoded {
        Some(bytes) => Some(bytes@),
        None => None,
    }
}

/// Calls `base32::decode` with the alphabet `Rfc4648 { padding }`. The result
/// is a function of the two arguments alone, named [`base32_decoded`].
/// Decoding multiplies the length by five, so texts too long for that are
/// left out.
#[verifier::external_body]
fn base32_decode(padding: bool, text: &str) -> (decoded: Option<Vec<u8>>)
    requires
        decodable_length(text@),
    ensures
        bytes_of(decoded) == base32_decoded(padding, text@),
{
    base32::decode(base32::Alphabet::Rfc4648 { padding }, text)
}

/// The key material that a secret stands for: what the padded reading gives,
/// and where that fails what the unpadded reading gives.
pub open spec fn decoded_secret(secret: Seq<char>) -> Option<Seq<u8>> {
    match base32_decoded(true, secret) {
        Some(bytes) => Some(bytes),
        None => base32_decoded(false, secret),
    }
}

/// A key after the length check: itself, or the error that tells its length
/// in bytes and in bits.
pub open spec fn checked_key(key: Seq<u8>) -> Result<Seq<u8>, ErrorView> {
    if key.len() >= MIN_KEY_BYTES {
        Ok(key)
    } else {
        Err(ErrorView::SecretTooShort { bytes: key.len(), bits: key.len() * 8 })
    }
}

/// The key that a secret is accepted with, or why it is refused.
pub open spec fn validated_secret(secret: Seq<char>) -> Result<Seq<u8>, ErrorView> {
    match decoded_secret(secret) {
        Some(key) => checked_key(key),
        None => Err(ErrorView::InvalidEncoding),
    }
}

/// The view of a key or of the error in its place.
pub open spec fn key_outcome(outcome: Result<Vec<u8>, Error>) -> Result<Seq<u8>, ErrorView> {
    match outcome {
        Ok(key) => Ok(key@),
        Err(error) => Err(error@),
    }
}

/// Decodes a Base32 secret, first as padded text, then as unpadded text.
pub fn decode_secret(secret: &str) -> (key: Result<Vec<u8>, Error>)
    requires
        decodable_length(secret@),
    ensures
        key_outcome(key) == match decoded_secret(secret@) {
            Some(bytes) => Ok::<Seq<u8>, ErrorView>(bytes),
            None => Err(ErrorView::InvalidEncoding),
        },
{
    match base32_decode(true, secret) {
        Some(bytes) => Ok(bytes),
        None => match base32_decode(false, secret) {
            Some(bytes) => Ok(bytes),
            None => Err(Error::InvalidEncoding),
        },
    }
}

/// Accepts a decoded key of at least 16 bytes and refuses a shorter one.
pub fn check_key(key: Vec<u8>) -> (checked: Result<Vec<u8>, Error>)
    ensures
        key_outcome(checked) == checked_key(key@),
{
    let bytes = key.len();
    if bytes < MIN_KEY_BYTES {
        Err(Error::SecretTooShort { bytes, bits: bytes * 8 })
    } else {
        Ok(key)
    }
}

/// Decodes a secret and checks that it holds at least 128 bits.
pub fn validate_secret(secret: &str) -> (key: Result<Vec<u8>, Error>)
    requires
        decodable_length(secret@),
    ensures
        key_outcome(key) == validated_secret(secret@),
{
    match decode_secret(secret) {
        Ok(bytes) => check_key(bytes),
        Err(error) => Err(error),
    }
}

/// A secret that Base32 reads as `key`, with padding or, where that fails,
/// without, decodes to `key`; with at least 16 bytes the key is accepted as
/// it is.
pub proof fn lemma_readable_secret_is_decoded(secret: Seq<char>, key: Seq<u8>)
    requires
        base32_decoded(true, secret) == Some(key) || (base32_decoded(true, secret) is None
            && base32_decoded(false, secret) == Some(key)),
    ensures
        decoded_secret(secret) == Some(key),
        key.len() >= MIN_KEY_BYTES ==> validated_secret(secret) == Ok::<Seq<u8>, ErrorView>(key),
{
}

} // verus!
