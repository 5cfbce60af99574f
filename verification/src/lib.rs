//! Store-and-forward encrypted messaging core.
//!
//! Identities sign and authenticate messages, pairwise key agreement derives
//! per-pair symmetric keys, and a server-side command processor persists and
//! relays ciphertext between registered identities.

pub mod client;
pub mod codec;
pub mod crypto;
pub mod fresh;
pub mod hexcode;
pub mod jsontext;
pub mod persist;
pub mod server;
pub mod store;
pub mod strutil;
pub mod types;
