//! The decryption primitive: Fernet symmetric-authenticated decryption of a
//! base64-encoded token, with the outside crate's calls behind trusted
//! wrappers and everything around them verified.
//!
//! A structurally invalid key, a rejected token, and decrypted bytes that are
//! not valid text are three distinct failures; all integrity, format and
//! expiry rejections collapse into the single `DecryptionFailed` outcome on
//! purpose, so that the error reveals nothing about the cause.

use vstd::prelude::*;
use vstd::string::*;
use vstd::utf8::{decode_utf8, encode_utf8, encode_utf8_decode_utf8, encode_utf8_valid_utf8,
    valid_utf8};

verus! {

/// Whether a string is a structurally valid Fernet key: 32 bytes in url-safe
/// base64. A function of the key string alone.
pub uninterp spec fn fernet_key_ok(key: Seq<char>) -> bool;

/// Whether a token passes every time-independent check that Fernet
/// decryption applies under a key: base64 decoding, version byte, minimum
/// length, integrity tag, block padding. A function of key and token alone.
pub uninterp spec fn fernet_token_ok(key: Seq<char>, token: Seq<char>) -> bool;

/// The plaintext bytes that a token carries under a key. A function of key
/// and token alone.
pub uninterp spec fn fernet_plain(key: Seq<char>, token: Seq<char>) -> Seq<u8>;

/// Relies on fernet::Fernet::new: it accepts a key exactly when the key is
/// 32 url-safe-base64-encoded bytes, a property of the key string alone.
#[verifier::external_body]
pub(crate) fn fernet_key_is_valid(key: &str) -> (r: bool)
    ensures
        r == fernet_key_ok(key@),
{
    fernet::Fernet::new(key).is_some()
}

/// Relies on fernet::Fernet::new and fernet::Fernet::decrypt. A token that
/// fails a time-independent check is always rejected, and an accepted token
/// always yields the plaintext determined by key and token. Decryption also
/// applies a clock-skew check that can reject a token stamped in the future,
/// so acceptance is bounded by `fernet_token_ok`, never implied by it.
#[verifier::external_body]
fn fernet_decrypt_raw(token: &str, key: &str) -> (r: Option<Vec<u8>>)
    requires
        fernet_key_ok(key@),
    ensures
        r matches Some(v) ==> fernet_token_ok(key@, token@) && v@ == fernet_plain(key@, token@),
        !fernet_token_ok(key@, token@) ==> r is None,
{
    match fernet::Fernet::new(key) {
        Some(f) => f.decrypt(token).ok(),
        None => None,
    }
}

/// Relies on fernet::Fernet::new and fernet::Fernet::encrypt: the token
/// embeds a random initialization vector and the current time, but every
/// token produced passes the time-independent checks under its key and
/// decrypts to exactly the encrypted bytes.
#[verifier::external_body]
fn fernet_encrypt_raw(plain: &Vec<u8>, key: &str) -> (r: String)
    requires
        fernet_key_ok(key@),
    ensures
        fernet_token_ok(key@, r@),
        fernet_plain(key@, r@) == plain@,
{
    match fernet::Fernet::new(key) {
        Some(f) => f.encrypt(plain.as_slice()),
        None => String::new(),
    }
}

/// Relies on String::from_utf8: it succeeds exactly on valid UTF-8 and
/// returns the decoded characters.
#[verifier::external_body]
fn bytes_to_string(v: Vec<u8>) -> (r: Option<String>)
    ensures
        (r is Some) == valid_utf8(v@),
        r matches Some(s) ==> s@ == decode_utf8(v@),
{
    match String::from_utf8(v) {
        Ok(s) => Some(s),
        Err(_) => None,
    }
}

/// Why a value could not be decrypted.
#[derive(Debug, PartialEq, Eq, Structural)]
pub enum CryptoError {
    /// The key is not a structurally valid Fernet key.
    InvalidKey,
    /// The token was rejected: malformed, tampered with, or expired. The
    /// cause is deliberately not distinguished.
    DecryptionFailed,
    /// The decrypted bytes are not valid text.
    InvalidEncoding,
}

/// What decryption returns for each outcome of the Fernet primitive: a
/// rejected token is `DecryptionFailed`, accepted bytes that are not valid
/// text are `InvalidEncoding`, and valid text is returned decoded.
pub fn finish_decrypt(raw: Option<Vec<u8>>) -> (r: Result<String, CryptoError>)
    ensures
        raw is None ==> r == Err::<String, CryptoError>(CryptoError::DecryptionFailed),
        raw matches Some(v) ==> (if valid_utf8(v@) {
            r matches Ok(s) && s@ == decode_utf8(v@)
        } else {
            r == Err::<String, CryptoError>(CryptoError::InvalidEncoding)
        }),
{
    match raw {
        None => Err(CryptoError::DecryptionFailed),
        Some(v) => match bytes_to_string(v) {
            Some(s) => Ok(s),
            None => Err(CryptoError::InvalidEncoding),
        },
    }
}

/// Decrypts a Fernet token into text.
///
/// The key is validated before any decryption is attempted; an invalid key
/// is reported as `InvalidKey`, never as a decryption failure. A token that
/// fails a time-independent check is `DecryptionFailed`; an accepted token
/// yields its plaintext, decoded, or `InvalidEncoding` where the plaintext
/// is not valid text. The primitive's own clock-skew check may additionally
/// reject a token stamped in the future, as `DecryptionFailed`.
pub fn decrypt_fernet(token: &str, key: &str) -> (r: Result<String, CryptoError>)
    ensures
        !fernet_key_ok(key@) ==> r == Err::<String, CryptoError>(CryptoError::InvalidKey),
        fernet_key_ok(key@) && !fernet_token_ok(key@, token@) ==> r == Err::<String, CryptoError>(
            CryptoError::DecryptionFailed,
        ),
        fernet_key_ok(key@) && fernet_token_ok(key@, token@) && valid_utf8(
            fernet_plain(key@, token@),
        ) ==> (r matches Ok(s) && s@ == decode_utf8(fernet_plain(key@, token@))) || r == Err::<String, CryptoError>(
            CryptoError::DecryptionFailed,
        ),
        fernet_key_ok(key@) && fernet_token_ok(key@, token@) && !valid_utf8(
            fernet_plain(key@, token@),
        ) ==> r == Err::<String, CryptoError>(CryptoError::InvalidEncoding) || r == Err::<String, CryptoError>(CryptoError::DecryptionFailed),
{
    if !fernet_key_is_valid(key) {
        return Err(CryptoError::InvalidKey);
    }
    finish_decrypt(fernet_decrypt_raw(token, key))
}

/// Encrypts text into a Fernet token, where the key is valid; the companion
/// of `decrypt_fernet` used to produce round-trippable tokens.
pub fn encrypt_value(plain: &str, key: &str) -> (r: Option<String>)
    ensures
        (r is Some) == fernet_key_ok(key@),
        r matches Some(t) ==> fernet_token_ok(key@, t@) && fernet_plain(key@, t@) == encode_utf8(
            plain@,
        ),
{
    if fernet_key_is_valid(key) {
        let b = plain.as_bytes_vec();
        Some(fernet_encrypt_raw(&b, key))
    } else {
        None
    }
}

/// Law: decrypting a freshly encrypted value under the same valid key can
/// only return the original plaintext or the primitive's time-based
/// `DecryptionFailed` rejection — never a different plaintext, never
/// `InvalidKey` or `InvalidEncoding`. Under an invalid key nothing is
/// encrypted at all.
pub fn encrypt_then_decrypt(plain: &str, key: &str) -> (r: Option<Result<String, CryptoError>>)
    ensures
        (r is Some) == fernet_key_ok(key@),
        r matches Some(d) ==> (d matches Ok(s) && s@ == plain@) || d == Err::<String, CryptoError>(
            CryptoError::DecryptionFailed,
        ),
{
    match encrypt_value(plain, key) {
        Some(t) => {
            proof {
                encode_utf8_valid_utf8(plain@);
                encode_utf8_decode_utf8(plain@);
            }
            Some(decrypt_fernet(t.as_str(), key))
        },
        None => None,
    }
}

} // verus!
