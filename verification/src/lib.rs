//! Token-accounting core for an actor-style ledger runtime.
//!
//! The crate holds three verified pieces: a single-balance fungible ledger
//! with allowances, a hierarchical multi-token ledger whose per-id and
//! per-owner views are kept consistent by proved invariants, and a
//! delegated-approval verifier that checks a signed, time-bounded capability
//! against identity, program, ownership and expiry constraints.

pub mod account;
pub mod assoc;
pub mod delegated;
pub mod dynamic_nft;
pub mod encodable;
pub mod errors;
pub mod fungible;
pub mod multi;
pub mod nft;
