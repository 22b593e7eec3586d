//! Trust-chain bootstrap and verification for a secure message-drop platform.
//!
//! A root signing key attests an intermediate signing key, which in turn
//! attests the signing key and the encrypting key of each journalist. This
//! crate generates such a hierarchy, encodes it for storage, verifies its
//! links, and validates journalist keys that arrive from outside before they
//! are accepted.

pub mod bootstrap;
pub mod chain;
pub mod crypto;
pub mod error;
pub mod keys;
pub mod pki;
pub mod record;
pub mod signing;
pub mod store;
pub mod submission;
