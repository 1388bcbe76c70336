//! Secure-channel core for a peer-addressed messaging client and server.
//!
//! The crate establishes mutual trust between two endpoints, negotiates a
//! symmetric session key, and persists sensitive local records so that the
//! on-disk representation is unreadable without the owner's passphrase.

use vstd::prelude::*;

mod errors;
pub mod client;
pub mod db;
pub mod handler;
pub mod models;
pub mod pki;
pub mod rpc;
pub mod rpc_models;
pub mod server;
pub mod ski;
pub mod token;
pub mod wire;

pub use errors::CryptoError;

verus! {

} // verus!
