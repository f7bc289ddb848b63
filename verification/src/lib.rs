//! pwstash: an encrypted password vault.
//!
//! The library holds the vault's rules: the `PWS1` file framing, the key
//! derivation and authenticated encryption of the payload, the in-memory
//! entry store with its case-insensitive service names, password generation,
//! vault path resolution and the terminal UI's state machine.
pub mod app;
pub mod clipboard;
pub mod encryption;
pub mod error;
pub mod generate;
pub mod handler;
pub mod master_password;
pub mod paths;
pub mod persistence;
pub mod report;
pub mod screen;
pub mod text;
pub mod vault;

use vstd::prelude::*;

verus! {

} // verus!
