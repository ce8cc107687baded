//! Error taxonomy of the persistence engine.

use vstd::prelude::*;

verus! {

/// Everything that can go wrong inside the store, the cipher, the backup
/// engine or the migration engine.
#[derive(Clone, Debug, PartialEq, Eq, Structural)]
pub enum StoreError {
    /// The underlying store file could not be opened or created.
    StoreUnavailable,
    /// A stored payload was malformed and could not be decoded.
    SerializationError,
    /// An update referenced an id that has no stored row.
    NotFound,
    /// Wrong key, or a tampered, truncated or corrupt encrypted payload.
    DecryptError,
    /// The cipher refused to seal a payload.
    EncryptError,
    /// An encrypted backup was requested while encryption is not active.
    PreconditionFailed,
    /// An encrypted backup can only be restored with credentials, and none
    /// were given and forced recovery was not requested.
    PasswordRequired,
    /// A versioned migration ran but its validator rejected the result.
    MigrationValidationFailed,
}

impl StoreError {
    /// A short human-readable description, for callers that surface status text.
    pub fn message(&self) -> (r: &'static str)
    {
        match self {
            StoreError::StoreUnavailable => "store file could not be opened",
            StoreError::SerializationError => "stored payload is malformed",
            StoreError::NotFound => "no row with the given id",
            StoreError::DecryptError => "decryption failed",
            StoreError::EncryptError => "encryption failed",
            StoreError::PreconditionFailed => "encrypted backup requires active encryption",
            StoreError::PasswordRequired => "encrypted backup requires a password",
            StoreError::MigrationValidationFailed => "migration validation failed",
        }
    }
}

} // verus!
