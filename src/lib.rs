//! A custodial ledger for on-ramp and off-ramp flows: a bounded table of
//! accepted assets with per-asset fees and accrued revenue, an owner who
//! administers it, and the fixed-layout record in which it is stored.

pub mod codec;
pub mod errors;
pub mod instructions;
pub mod laws;
pub mod models;
pub mod processor;
pub mod pubkey;
pub mod state;
