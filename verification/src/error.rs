//! Failure kinds of the vault, one tagged type per component.

use vstd::prelude::*;

verus! {

/// Why the credential backend could not carry out a call.
#[derive(Clone, Copy, Debug, PartialEq, Eq, Structural)]
pub enum CredentialBackendError {
    /// No credential is stored under the identifier.
    NotFound,
    /// The credential store could not be reached or failed.
    Unavailable,
    /// The platform refused access to the credential store.
    PlatformDenied,
}

/// Why an export blob could not be produced or opened.
#[derive(Clone, Copy, Debug, PartialEq, Eq, Structural)]
pub enum CryptoError {
    /// The key could not be derived from the password and the salt.
    KeyDerivationFailed,
    /// The integrity tag did not match: wrong password or altered blob.
    AuthenticationFailed,
    /// The blob does not have the documented layout or encoding.
    MalformedBlob,
    /// The payload is too large to be sealed or encoded.
    EncryptionFailed,
}

/// Every failure a vault operation can report.
#[derive(Clone, Copy, Debug, PartialEq, Eq, Structural)]
pub enum VaultError {
    /// The storage directory could not be resolved.
    Config,
    /// The registry file could not be read or written.
    Io,
    /// The registry file does not hold a list of references.
    Serialization,
    /// The credential backend failed.
    CredentialBackend(CredentialBackendError),
    /// The export codec failed.
    Crypto(CryptoError),
}

impl CredentialBackendError {
    /// The text shown to a user for this failure.
    pub open spec fn message_text(self) -> Seq<char> {
        match self {
            CredentialBackendError::NotFound => "no credential is stored for this secret"@,
            CredentialBackendError::Unavailable => "the credential store is unavailable"@,
            CredentialBackendError::PlatformDenied => "the platform denied access to the credential store"@,
        }
    }

    pub fn message(&self) -> (text: String)
        ensures
            text@ == self.message_text(),
    {
        match self {
            CredentialBackendError::NotFound => "no credential is stored for this secret".to_owned(),
            CredentialBackendError::Unavailable => "the credential store is unavailable".to_owned(),
            CredentialBackendError::PlatformDenied => "the platform denied access to the credential store".to_owned(),
        }
    }
}

impl CryptoError {
    /// The text shown to a user for this failure.
    pub open spec fn message_text(self) -> Seq<char> {
        match self {
            CryptoError::KeyDerivationFailed => "failed to derive a key from the password"@,
            CryptoError::AuthenticationFailed => "decryption failed: wrong password or corrupted data"@,
            CryptoError::MalformedBlob => "invalid encrypted data format"@,
            CryptoError::EncryptionFailed => "encryption failed"@,
        }
    }

    pub fn message(&self) -> (text: String)
        ensures
            text@ == self.message_text(),
    {
        match self {
            CryptoError::KeyDerivationFailed => "failed to derive a key from the password".to_owned(),
            CryptoError::AuthenticationFailed => "decryption failed: wrong password or corrupted data".to_owned(),
            CryptoError::MalformedBlob => "invalid encrypted data format".to_owned(),
            CryptoError::EncryptionFailed => "encryption failed".to_owned(),
        }
    }
}

impl VaultError {
    /// The text shown to a user for this failure.
    pub open spec fn message_text(self) -> Seq<char> {
        match self {
            VaultError::Config => "failed to resolve the data directory"@,
            VaultError::Io => "failed to read or write the references file"@,
            VaultError::Serialization => "the references file is malformed"@,
            VaultError::CredentialBackend(e) => e.message_text(),
            VaultError::Crypto(e) => e.message_text(),
        }
    }

    pub fn message(&self) -> (text: String)
        ensures
            text@ == self.message_text(),
    {
        match self {
            VaultError::Config => "failed to resolve the data directory".to_owned(),
            VaultError::Io => "failed to read or write the references file".to_owned(),
            VaultError::Serialization => "the references file is malformed".to_owned(),
            VaultError::CredentialBackend(e) => e.message(),
            VaultError::Crypto(e) => e.message(),
        }
    }
}

} // verus!
