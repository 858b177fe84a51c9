//! Secret-management core of a local password vault: key derivation, record
//! encryption, master-password authentication, session lifetime and the entry
//! store model, each stated and proved with Verus.

pub mod secret;
pub mod error;
pub mod cipher;
pub mod models;
pub mod database;
pub mod authentication;
pub mod laws;
pub mod clipboard;
pub mod schema;
