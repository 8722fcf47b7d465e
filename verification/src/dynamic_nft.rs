//! Data model of the dynamic non-fungible pieces: the same unique-token
//! shape as the plain non-fungible one, extended with a changeable payload
//! chosen by the embedding program.

use vstd::prelude::*;
use crate::account::ActorId;
use crate::nft::TokenId;

verus! {

/// One unique token with a single owner and per-token approvals.
#[derive(Debug, Clone, PartialEq, Eq)]
pub struct Token {
    pub id: TokenId,
    pub owner_id: ActorId,
    pub name: String,
    pub description: String,
    pub media: String,
    pub reference: String,
    pub approved_account_ids: Vec<ActorId>,
}

/// Free-text metadata of one token.
#[derive(Debug, Clone, PartialEq, Eq)]
pub struct TokenMetadata {
    pub name: String,
    pub description: String,
    pub media: String,
    pub reference: String,
}

/// A unique token carrying changeable data of the embedding program's
/// choosing besides the fixed fields.
#[derive(Debug, Clone, PartialEq, Eq)]
pub struct DynamicToken<T> {
    pub id: TokenId,
    pub owner_id: ActorId,
    pub name: String,
    pub description: String,
    pub media: String,
    pub reference: String,
    pub approved_account_ids: Vec<ActorId>,
    pub dynamic_data: T,
}

/// Token metadata carrying changeable data besides the fixed fields.
#[derive(Debug, Clone, PartialEq, Eq)]
pub struct DynamicTokenMetadata<T> {
    pub name: String,
    pub description: String,
    pub media: String,
    pub reference: String,
    pub dynamic_data: T,
}

} // verus!
