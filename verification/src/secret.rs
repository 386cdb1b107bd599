//! Resolution of named configuration values against the environment: a
//! plaintext binding of the name itself wins; otherwise the `<NAME>_ENC`
//! variant is decrypted with a caller-supplied key or with the key held by
//! the designated key variable.

use vstd::prelude::*;
use vstd::string::*;
use vstd::utf8::{decode_utf8, valid_utf8};
use crate::crypto::{
    decrypt_fernet, fernet_key_is_valid, fernet_key_ok, fernet_plain, fernet_token_ok,
    CryptoError,
};
use crate::envmap::{lookup_entries, EnvEntryV, EnvMap, EnvValue, EnvValueV};

verus! {

/// The designated environment variable that holds the shared decryption key.
pub open spec fn key_var_name() -> Seq<char> {
    "ENCRYPTION_PASSWORD"@
}

/// The name under which the encrypted variant of a secret is stored.
pub open spec fn enc_suffix(n: Seq<char>) -> Seq<char> {
    n + "_ENC"@
}

/// The text bound to `n`, if `n` is bound to text at all.
pub open spec fn text_binding(m: Seq<EnvEntryV>, n: Seq<char>) -> Option<Seq<char>> {
    match lookup_entries(m, n) {
        Some(EnvValueV::Text(v)) => Some(v),
        _ => None,
    }
}

/// Whether `n` is bound to non-empty text: the plaintext form of a secret.
pub open spec fn has_plain(m: Seq<EnvEntryV>, n: Seq<char>) -> bool {
    text_binding(m, n) matches Some(v) && v.len() > 0
}

/// The text bound to the encrypted variant of `n`, if any.
pub open spec fn enc_binding(m: Seq<EnvEntryV>, n: Seq<char>) -> Option<Seq<char>> {
    text_binding(m, enc_suffix(n))
}

/// The decryption key in effect: a caller-supplied override, or else the
/// text bound to the designated key variable.
pub open spec fn key_binding(m: Seq<EnvEntryV>, ko: Option<Seq<char>>) -> Option<Seq<char>> {
    if ko is Some {
        ko
    } else {
        text_binding(m, key_var_name())
    }
}

pub open spec fn view_opt_str(o: Option<&str>) -> Option<Seq<char>> {
    match o {
        Some(s) => Some(s@),
        None => None,
    }
}

/// Law: whether the plaintext form of a secret wins, and what it holds, is
/// independent of the encrypted variant: two environments that agree on the
/// binding of `n` itself agree on both, whatever either binds `<n>_ENC` to —
/// even malformed ciphertext. Together with the resolution contract, which
/// pins the result to the plaintext whenever it is non-empty, the encrypted
/// variant can never influence a plaintext resolution.
pub proof fn lemma_plain_independent_of_enc(m1: Seq<EnvEntryV>, m2: Seq<EnvEntryV>, n: Seq<char>)
    requires
        lookup_entries(m1, n) == lookup_entries(m2, n),
    ensures
        has_plain(m1, n) == has_plain(m2, n),
        text_binding(m1, n) == text_binding(m2, n),
{
}

/// Why a plain environment variable could not be read.
#[derive(Debug)]
pub enum EnvError {
    /// The variable is not bound to text.
    Missing { name: String },
    /// The variable is bound, but its raw value is not valid text.
    NotText { name: String },
}

/// Why the decryption key could not be resolved.
#[derive(Debug, PartialEq, Eq, Structural)]
pub enum KeyError {
    /// The designated key variable is not bound to text.
    Missing,
    /// The designated key variable is bound but not a valid key.
    Invalid,
}

/// Why a named secret could not be resolved.
#[derive(Debug)]
pub enum SecretError {
    /// Neither the plaintext name nor its encrypted variant is bound.
    MissingBoth { name: String },
    /// An encrypted value is present but no decryption key is available.
    MissingKey,
    /// The decryption key in effect is not a structurally valid key.
    KeyInvalid,
    /// The ciphertext was rejected; the cause is deliberately not
    /// distinguished.
    DecryptionFailed { name: String },
    /// The decrypted bytes are not valid text.
    InvalidEncoding,
}

/// Fetches an environment variable as plaintext, failing when it is not
/// bound to text.
pub fn env_plain(env: &EnvMap, var: &str) -> (r: Result<String, EnvError>)
    ensures
        text_binding(env@, var@) matches Some(v) ==> (r matches Ok(s) && s@ == v),
        text_binding(env@, var@) is None ==> (r matches Err(e) && e matches EnvError::Missing {
            name,
        } && name@ == var@),
{
    match env.lookup(var) {
        Some(v) => match v {
            EnvValue::Text(s) => Ok(String::from_str(s.as_str())),
            EnvValue::Raw(_) => Err(EnvError::Missing { name: String::from_str(var) }),
        },
        None => Err(EnvError::Missing { name: String::from_str(var) }),
    }
}

/// Reads an environment variable that may hold a filesystem path: the path
/// where the variable is bound, nothing where it is unbound, and a failure
/// only where the raw value is not valid text.
pub fn env_path_opt(env: &EnvMap, var: &str) -> (r: Result<Option<String>, EnvError>)
    ensures
        lookup_entries(env@, var@) is None ==> (r matches Ok(o) && o is None),
        lookup_entries(env@, var@) matches Some(EnvValueV::Text(v)) ==> (r matches Ok(o) && (
        o matches Some(p) && p@ == v)),
        lookup_entries(env@, var@) matches Some(EnvValueV::Raw(b)) ==> (r matches Err(e)
            && e matches EnvError::NotText { name } && name@ == var@),
{
    match env.lookup(var) {
        None => Ok(None),
        Some(v) => match v {
            EnvValue::Text(s) => Ok(Some(String::from_str(s.as_str()))),
            EnvValue::Raw(_) => Err(EnvError::NotText { name: String::from_str(var) }),
        },
    }
}

/// Fetches the designated key variable and validates it structurally before
/// returning it. A missing binding and a malformed key are distinct
/// failures; no decryption is attempted, so no decryption failure can come
/// out of this function.
pub fn env_fernet_key(env: &EnvMap) -> (r: Result<String, KeyError>)
    ensures
        text_binding(env@, key_var_name()) is None ==> r == Err::<String, KeyError>(
            KeyError::Missing,
        ),
        text_binding(env@, key_var_name()) matches Some(k) ==> (if fernet_key_ok(k) {
            r matches Ok(s) && s@ == k
        } else {
            r == Err::<String, KeyError>(KeyError::Invalid)
        }),
{
    match env.lookup("ENCRYPTION_PASSWORD") {
        Some(v) => match v {
            EnvValue::Text(s) => {
                if fernet_key_is_valid(s.as_str()) {
                    Ok(String::from_str(s.as_str()))
                } else {
                    Err(KeyError::Invalid)
                }
            },
            EnvValue::Raw(_) => Err(KeyError::Missing),
        },
        None => Err(KeyError::Missing),
    }
}

/// Resolves a named secret.
///
/// A non-empty plaintext binding of the name itself is returned verbatim,
/// and the encrypted variant is then never consulted — the outcome is fixed
/// whatever `<name>_ENC` holds, even malformed ciphertext. Otherwise the
/// `<name>_ENC` binding is decrypted with the key in effect, and every
/// failure is reported distinctly: no binding at all, no key, a malformed
/// key, rejected ciphertext, or plaintext that is not valid text.
pub fn env_secret(env: &EnvMap, name: &str, key_override: Option<&str>) -> (r: Result<
    String,
    SecretError,
>)
    ensures
        has_plain(env@, name@) ==> (r matches Ok(s) && Some(s@) == text_binding(env@, name@)),
        ({
            let m = env@;
            let n = name@;
            let ko = view_opt_str(key_override);
            !has_plain(m, n) ==> match (enc_binding(m, n), key_binding(m, ko)) {
                (Some(c), Some(k)) => {
                    &&& (!fernet_key_ok(k) ==> (r matches Err(e) && e is KeyInvalid))
                    &&& (fernet_key_ok(k) && !fernet_token_ok(k, c) ==> (r matches Err(e)
                        && e matches SecretError::DecryptionFailed { name: nm } && nm@ == n))
                    &&& (fernet_key_ok(k) && fernet_token_ok(k, c) && valid_utf8(
                        fernet_plain(k, c),
                    ) ==> ((r matches Ok(s) && s@ == decode_utf8(fernet_plain(k, c))) || (
                    r matches Err(e) && e matches SecretError::DecryptionFailed { name: nm }
                        && nm@ == n)))
                    &&& (fernet_key_ok(k) && fernet_token_ok(k, c) && !valid_utf8(
                        fernet_plain(k, c),
                    ) ==> (r matches Err(e) && (e is InvalidEncoding || (
                    e matches SecretError::DecryptionFailed { name: nm } && nm@ == n))))
                },
                (None, _) => r matches Err(e) && e matches SecretError::MissingBoth { name: nm }
                    && nm@ == n,
                (Some(_), None) => r matches Err(e) && e is MissingKey,
            }
        }),
{
    match env.lookup(name) {
        Some(v) => match v {
            EnvValue::Text(s) => {
                if !s.as_str().is_empty() {
                    return Ok(String::from_str(s.as_str()));
                }
            },
            EnvValue::Raw(_) => {},
        },
        None => {},
    }
    let mut enc_name = String::from_str(name);
    enc_name.append("_ENC");
    let enc = match env.lookup(enc_name.as_str()) {
        Some(v) => match v {
            EnvValue::Text(s) => String::from_str(s.as_str()),
            EnvValue::Raw(_) => {
                return Err(SecretError::MissingBoth { name: String::from_str(name) });
            },
        },
        None => {
            return Err(SecretError::MissingBoth { name: String::from_str(name) });
        },
    };
    let key = match key_override {
        Some(k) => String::from_str(k),
        None => match env.lookup("ENCRYPTION_PASSWORD") {
            Some(v) => match v {
                EnvValue::Text(s) => String::from_str(s.as_str()),
                EnvValue::Raw(_) => {
                    return Err(SecretError::MissingKey);
                },
            },
            None => {
                return Err(SecretError::MissingKey);
            },
        },
    };
    match decrypt_fernet(enc.as_str(), key.as_str()) {
        Ok(s) => Ok(s),
        Err(CryptoError::InvalidKey) => Err(SecretError::KeyInvalid),
        Err(CryptoError::DecryptionFailed) => Err(
            SecretError::DecryptionFailed { name: String::from_str(name) },
        ),
        Err(CryptoError::InvalidEncoding) => Err(SecretError::InvalidEncoding),
    }
}

} // verus!
