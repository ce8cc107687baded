//! Verified core of a personal finance tracker: an encrypted persistence and
//! schema-migration engine.
//!
//! The library owns the relational store's contents as an in-memory model
//! (categories, flows, a settings payload and a migration ledger), derives an
//! encryption key from a user password, transparently encrypts and decrypts
//! the settings payload, performs transactionally safe backup and restore in
//! both encrypted and portable form, and evolves the category/flow schema in
//! place without data loss.  File and vault I/O live outside the library;
//! callers hand rows in and take rows out.

pub mod backup;
pub mod db;
pub mod encryption;
pub mod encryption_config;
pub mod errors;
pub mod floattext;
pub mod migrations;
pub mod models;
pub mod settings;
