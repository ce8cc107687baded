//! The encryption configuration persisted in the platform credential vault.
//!
//! The configuration lives outside the relational store so that it stays
//! readable even when the store file is corrupt or encrypted.  Reading and
//! writing the vault entry is the caller's concern; this module owns the
//! configuration value itself and every decision made over it.

use vstd::prelude::*;
use crate::encryption::{DatabaseEncryption, password_digest};
use crate::errors::StoreError;

verus! {

/// Which password prompt a caller is driving: first-time setup, unlocking,
/// changing the password, or disabling encryption.
#[derive(Debug, Clone, PartialEq, Eq, Structural)]
pub enum PasswordDialogMode {
    SetPassword,
    EnterPassword,
    ChangePassword,
    DisableEncryption,
}

/// The persisted encryption configuration: whether encryption is enabled,
/// the password verification digest and its salt, and whether the store's
/// payloads are currently encrypted.
#[derive(Debug, Clone)]
pub struct EncryptionConfig {
    pub enabled: bool,
    pub password_hash: Option<String>,
    pub salt: Option<String>,
    pub database_encrypted: bool,
}

impl EncryptionConfig {
    /// An encrypted store always has both a digest and a salt on record.
    pub open spec fn wf(&self) -> bool {
        self.database_encrypted ==> self.password_hash is Some && self.salt is Some
    }

    /// Encryption is ready when it is enabled and a password has been set.
    pub open spec fn spec_ready(&self) -> bool {
        self.enabled && self.password_hash is Some && self.salt is Some
    }

    /// Set a password: draw a fresh random salt, digest the password under
    /// it, and mark the store as encrypted.  Persisting the new value to the
    /// credential vault is the caller's concern.
    pub fn set_password(&mut self, password: &str) -> (r: Result<(), StoreError>)
        ensures
            r is Ok,
            final(self).enabled,
            final(self).database_encrypted,
            final(self).wf(),
            final(self).salt matches Some(s) && final(self).password_hash matches Some(h)
                && h@ == password_digest(password@, s@),
    {
        let salt = DatabaseEncryption::generate_salt();
        let password_hash = DatabaseEncryption::hash_password(password, salt.as_str());
        self.password_hash = Some(password_hash);
        self.salt = Some(salt);
        self.enabled = true;
        self.database_encrypted = true;
        Ok(())
    }

    /// A password verifies exactly when a digest and salt are on record and
    /// the digest of the password under that salt is the recorded one.
    pub fn verify_password(&self, password: &str) -> (r: bool)
        ensures
            r == (self.password_hash matches Some(h) && self.salt matches Some(s)
                && h@ == password_digest(password@, s@)),
    {
        match (&self.password_hash, &self.salt) {
            (Some(stored_hash), Some(salt)) => DatabaseEncryption::verify_password(
                password,
                salt.as_str(),
                stored_hash.as_str(),
            ),
            _ => false,
        }
    }

    /// Encryption is enabled and a password is set.
    pub fn is_encryption_ready(&self) -> (r: bool)
        ensures
            r == self.spec_ready(),
    {
        self.enabled && self.password_hash.is_some() && self.salt.is_some()
    }

    /// Whether the store's payloads are currently encrypted.
    pub fn is_database_encrypted(&self) -> (r: bool)
        ensures
            r == self.database_encrypted,
    {
        self.database_encrypted
    }

    /// Disable encryption entirely, clearing the digest and salt.
    pub fn disable_encryption(&mut self) -> (r: Result<(), StoreError>)
        ensures
            r is Ok,
            !final(self).enabled,
            final(self).password_hash is None,
            final(self).salt is None,
            !final(self).database_encrypted,
            final(self).wf(),
    {
        self.enabled = false;
        self.password_hash = None;
        self.salt = None;
        self.database_encrypted = false;
        Ok(())
    }

    /// Re-enable the configuration without a password: back to the
    /// "configured but no password" state.
    pub fn re_enable_encryption(&mut self) -> (r: Result<(), StoreError>)
        ensures
            r is Ok,
            final(self).enabled,
            final(self).password_hash is None,
            final(self).salt is None,
            !final(self).database_encrypted,
            final(self).wf(),
    {
        self.enabled = true;
        self.password_hash = None;
        self.salt = None;
        self.database_encrypted = false;
        Ok(())
    }

    /// The salt on record, for deriving the data key after login.
    pub fn get_salt(&self) -> (r: Option<&String>)
        ensures
            r is Some <==> self.salt is Some,
            r matches Some(s) ==> self.salt matches Some(t) && *s == t,
    {
        self.salt.as_ref()
    }

    /// The password verification digest on record.
    pub fn get_password_hash(&self) -> (r: Option<&String>)
        ensures
            r is Some <==> self.password_hash is Some,
            r matches Some(h) ==> self.password_hash matches Some(t) && *h == t,
    {
        self.password_hash.as_ref()
    }
}

impl Default for EncryptionConfig {
    /// The configuration used when the vault holds none: encryption enabled
    /// by default, no password set, store not encrypted.
    fn default() -> (r: Self)
        ensures
            r.enabled,
            r.password_hash is None,
            r.salt is None,
            !r.database_encrypted,
            r.wf(),
    {
        EncryptionConfig {
            enabled: true,
            password_hash: None,
            salt: None,
            database_encrypted: false,
        }
    }
}

} // verus!
