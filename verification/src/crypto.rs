//! Errors of the cryptographic primitives.
use vstd::prelude::*;

verus! {

/// Errors of encryption, signing and key handling.
#[derive(Debug)]
pub enum CryptoError {
    Encryption,
    Decryption,
    SignatureVerification,
    KeyNotFound,
    InvalidKey,
    UnsupportedAlgorithm(String),
}

/// The message of a cryptographic error.
pub open spec fn crypto_error_message(e: CryptoError) -> Seq<char> {
    match e {
        CryptoError::Encryption => "encryption failed"@,
        CryptoError::Decryption => "decryption failed"@,
        CryptoError::SignatureVerification => "signature verification failed"@,
        CryptoError::KeyNotFound => "key not found"@,
        CryptoError::InvalidKey => "invalid key"@,
        CryptoError::UnsupportedAlgorithm(a) => "unsupported algorithm: "@ + a@,
    }
}

impl CryptoError {
    /// The error's message.
    pub fn to_string(&self) -> (s: String)
        ensures
            s@ == crypto_error_message(*self),
    {
        match self {
            CryptoError::Encryption => "encryption failed".to_owned(),
            CryptoError::Decryption => "decryption failed".to_owned(),
            CryptoError::SignatureVerification => "signature verification failed".to_owned(),
            CryptoError::KeyNotFound => "key not found".to_owned(),
            CryptoError::InvalidKey => "invalid key".to_owned(),
            CryptoError::UnsupportedAlgorithm(a) => {
                let mut s = "unsupported algorithm: ".to_owned();
                s.append(a.as_str());
                s
            },
        }
    }
}

} // verus!
