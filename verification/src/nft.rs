//! Data model of the non-fungible pieces: one unique token with a single
//! owner, its free-text metadata, per-token approvals, role holders and the
//! replies confirming completed commands.

use vstd::prelude::*;
use crate::account::ActorId;
use crate::multi::{Amount, Id};

verus! {

/// The identifier of one unique token.
pub type TokenId = Id;

/// A payout plan: which account receives how much on a sale transfer.
pub type Payout = Vec<(ActorId, Amount)>;

/// One unique token: its id, its single owner, free-text metadata fields
/// and the set of accounts approved for it (per token, not per owner).
#[derive(Debug, Clone, PartialEq, Eq)]
pub struct Token {
    pub id: TokenId,
    pub owner_id: ActorId,
    pub name: String,
    pub description: String,
    pub media: String,
    pub reference: String,
    pub approved_account_ids: Vec<ActorId>,
}

/// Free-text metadata of one token.
#[derive(Debug, Clone, PartialEq, Eq)]
pub struct TokenMetadata {
    pub name: String,
    pub description: String,
    pub media: String,
    pub reference: String,
}

/// A role holder and when the role expires (a unix timestamp).
#[derive(Debug, Clone, Copy, PartialEq, Eq, Structural)]
pub struct UserInfo {
    pub address: ActorId,
    pub expires: u64,
}

/// The reply confirming a completed non-fungible command.
#[derive(Debug, Clone, PartialEq, Eq)]
pub enum NFTEvent {
    Minted { token_id: TokenId, owner: ActorId, token_metadata: Option<TokenMetadata> },
    Burnt { token_id: TokenId },
    Transfer { from: ActorId, to: ActorId, token_id: TokenId },
    TransferPayout { from: ActorId, to: ActorId, token_id: TokenId, payouts: Payout },
    Approval { owner: ActorId, approved_account: ActorId, token_id: TokenId },
}

} // verus!
