//! Errors of the vault core.

use vstd::prelude::*;

verus! {

/// Everything an operation of the vault core can fail with.
#[derive(Debug)]
pub enum VaultError {
    /// The candidate master password does not match the stored verifier.
    IncorrectPassword,
    /// The stored verifier hash could not be parsed; carries the parser's message.
    HashingError(String),
    /// Key derivation rejected its inputs.
    KdfError,
    /// A token is not Base64, or too short to hold a nonce and a ciphertext.
    MalformedToken,
    /// A token's authentication tag does not verify under the key.
    AuthFailed,
    /// A token opened, but its plaintext is not UTF-8.
    MalformedPlaintext,
    /// A plaintext is longer than AES-GCM can seal in one message.
    PlaintextTooLong,
    /// The operation needs a signed-in session.
    Unauthenticated,
    /// No entry has the requested id.
    NotFound,
    /// The store cannot take the change (its row ids are exhausted).
    StoreError,
}

impl VaultError {
    /// A short human-readable description of the error.
    pub fn message(&self) -> (r: String)
        ensures
            self is HashingError ==> r@ == self->HashingError_0@,
    {
        match self {
            VaultError::IncorrectPassword => String::from_str("incorrect password"),
            VaultError::HashingError(m) => m.clone(),
            VaultError::KdfError => String::from_str("key derivation failed"),
            VaultError::MalformedToken => String::from_str("malformed token"),
            VaultError::AuthFailed => String::from_str("authentication of a token failed"),
            VaultError::MalformedPlaintext => String::from_str("plaintext is not UTF-8"),
            VaultError::PlaintextTooLong => String::from_str("plaintext is too long to seal"),
            VaultError::Unauthenticated => String::from_str(
                "You must be signed in to access these resources",
            ),
            VaultError::NotFound => String::from_str("no such entry"),
            VaultError::StoreError => String::from_str("the store cannot take the change"),
        }
    }
}

} // verus!
