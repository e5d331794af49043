//! A password vault: credentials kept per service name, sealed with a key
//! derived from a master password.

pub mod models;
pub mod crypto;
pub mod storage;
pub mod commands;
pub mod terminal;
