use doxcer::crypto::{decrypt_fernet, encrypt_then_decrypt, encrypt_value, CryptoError};
use doxcer::envmap::EnvMap;
use doxcer::secret::{env_fernet_key, env_secret, KeyError, SecretError};

fn valid_key() -> String {
    fernet::Fernet::generate_key()
}

fn encrypt_with(key: &str, data: &[u8]) -> String {
    fernet::Fernet::new(key).unwrap().encrypt(data)
}

#[test]
fn round_trip_through_real_fernet() {
    let key = valid_key();
    let token = encrypt_with(&key, b"top secret value");
    assert_eq!(decrypt_fernet(&token, &key).unwrap(), "top secret value");
}

#[test]
fn round_trip_through_library_encryption() {
    let key = valid_key();
    let token = encrypt_value("another value", &key).unwrap();
    // the token is a real ciphertext, not the plaintext handed back
    assert_ne!(token, "another value");
    assert_eq!(decrypt_fernet(&token, &key).unwrap(), "another value");
}

#[test]
fn encrypt_then_decrypt_law_on_sample() {
    let key = valid_key();
    let r = encrypt_then_decrypt("law sample", &key).unwrap();
    assert_eq!(r.unwrap(), "law sample");
    assert!(encrypt_then_decrypt("law sample", "not a key").is_none());
}

#[test]
fn invalid_key_is_reported_before_decryption() {
    let r = decrypt_fernet("some-token", "definitely not a fernet key");
    assert_eq!(r.unwrap_err(), CryptoError::InvalidKey);
}

#[test]
fn tampered_token_fails_decryption() {
    let key = valid_key();
    let token = encrypt_with(&key, b"payload");
    // flip one character of the token
    let mut bytes = token.into_bytes();
    let i = bytes.len() - 2;
    bytes[i] = if bytes[i] == b'A' { b'B' } else { b'A' };
    let tampered = String::from_utf8(bytes).unwrap();
    let r = decrypt_fernet(&tampered, &key);
    assert_eq!(r.unwrap_err(), CryptoError::DecryptionFailed);
}

#[test]
fn non_text_plaintext_is_invalid_encoding() {
    let key = valid_key();
    let token = encrypt_with(&key, &[0xff, 0xfe, 0x00, 0x80]);
    let r = decrypt_fernet(&token, &key);
    assert_eq!(r.unwrap_err(), CryptoError::InvalidEncoding);
}

#[test]
fn plaintext_wins_over_malformed_ciphertext() {
    let mut env = EnvMap::new();
    env.set_text("API_KEY", "direct-value");
    env.set_text("API_KEY_ENC", "!!not a token!!");
    let r = env_secret(&env, "API_KEY", None);
    assert_eq!(r.unwrap(), "direct-value");
}

#[test]
fn encrypted_secret_resolves() {
    let key = valid_key();
    let token = encrypt_with(&key, b"the real api key");
    let mut env = EnvMap::new();
    env.set_text("API_KEY_ENC", &token);
    env.set_text("ENCRYPTION_PASSWORD", &key);
    let r = env_secret(&env, "API_KEY", None);
    assert_eq!(r.unwrap(), "the real api key");
}

#[test]
fn key_override_beats_environment_key() {
    let key = valid_key();
    let token = encrypt_with(&key, b"override wins");
    let mut env = EnvMap::new();
    env.set_text("API_KEY_ENC", &token);
    let r = env_secret(&env, "API_KEY", Some(&key));
    assert_eq!(r.unwrap(), "override wins");
}

#[test]
fn missing_both_forms() {
    let env = EnvMap::new();
    match env_secret(&env, "API_KEY", None) {
        Err(SecretError::MissingBoth { name }) => assert_eq!(name, "API_KEY"),
        other => panic!("expected MissingBoth, got {:?}", other),
    }
}

#[test]
fn empty_plaintext_falls_through() {
    let mut env = EnvMap::new();
    env.set_text("API_KEY", "");
    match env_secret(&env, "API_KEY", None) {
        Err(SecretError::MissingBoth { name }) => assert_eq!(name, "API_KEY"),
        other => panic!("expected MissingBoth, got {:?}", other),
    }
}

#[test]
fn missing_key_for_encrypted_secret() {
    let key = valid_key();
    let token = encrypt_with(&key, b"x");
    let mut env = EnvMap::new();
    env.set_text("API_KEY_ENC", &token);
    assert!(matches!(env_secret(&env, "API_KEY", None), Err(SecretError::MissingKey)));
}

#[test]
fn malformed_environment_key() {
    let mut env = EnvMap::new();
    env.set_text("API_KEY_ENC", "whatever");
    env.set_text("ENCRYPTION_PASSWORD", "short");
    assert!(matches!(env_secret(&env, "API_KEY", None), Err(SecretError::KeyInvalid)));
}

#[test]
fn tampered_secret_reports_decryption_failure() {
    let key = valid_key();
    let token = encrypt_with(&key, b"payload");
    let mut bytes = token.into_bytes();
    let i = bytes.len() - 2;
    bytes[i] = if bytes[i] == b'A' { b'B' } else { b'A' };
    let tampered = String::from_utf8(bytes).unwrap();
    let mut env = EnvMap::new();
    env.set_text("API_KEY_ENC", &tampered);
    env.set_text("ENCRYPTION_PASSWORD", &key);
    match env_secret(&env, "API_KEY", None) {
        Err(SecretError::DecryptionFailed { name }) => assert_eq!(name, "API_KEY"),
        other => panic!("expected DecryptionFailed, got {:?}", other),
    }
}

#[test]
fn non_text_secret_plaintext() {
    let key = valid_key();
    let token = encrypt_with(&key, &[0xc3, 0x28]);
    let mut env = EnvMap::new();
    env.set_text("API_KEY_ENC", &token);
    env.set_text("ENCRYPTION_PASSWORD", &key);
    assert!(matches!(env_secret(&env, "API_KEY", None), Err(SecretError::InvalidEncoding)));
}

#[test]
fn key_resolution_distinguishes_missing_and_invalid() {
    let env = EnvMap::new();
    assert_eq!(env_fernet_key(&env).unwrap_err(), KeyError::Missing);

    let mut env = EnvMap::new();
    env.set_text("ENCRYPTION_PASSWORD", "present but malformed");
    assert_eq!(env_fernet_key(&env).unwrap_err(), KeyError::Invalid);

    let key = valid_key();
    let mut env = EnvMap::new();
    env.set_text("ENCRYPTION_PASSWORD", &key);
    assert_eq!(env_fernet_key(&env).unwrap(), key);
}
