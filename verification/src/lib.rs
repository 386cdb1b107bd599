//! Configuration resolution for a command-line tool.
//!
//! The crate locates an environment file across a prioritized list of
//! candidate locations, loads its `KEY=VALUE` contents into an explicit
//! environment context with additive-merge semantics, and resolves named
//! configuration values that may be stored either as plaintext or as
//! Fernet-encrypted ciphertext.

pub mod text;
pub mod envmap;
pub mod envfile;
pub mod discovery;
pub mod crypto;
pub mod secret;
