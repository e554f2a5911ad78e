//! A registry of soulbound "wraps": per-user, per-period records minted on
//! the authority of an admin's ed25519 signature.

pub mod contract;
pub mod crypto;
pub mod laws;
pub mod state;
pub mod table;
pub mod types;
pub mod xdr;
