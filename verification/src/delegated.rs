//! The delegated-approval verifier: validates a signed, time-bounded
//! capability that substitutes for an on-chain approve call, binding it to
//! a caller, a ledger instance, an owner and an expiry, and checking an
//! sr25519 signature over an explicit, versioned serialization of exactly
//! the signed fields — never over a raw in-memory byte dump.

use vstd::prelude::*;
use crate::account::ActorId;
use crate::errors::TokenError;
use crate::multi::Id;

verus! {

/// The little-endian bytes of a 64-bit integer.
pub open spec fn le_bytes_u64(x: u64) -> Seq<u8> {
    seq![
        ((x / 1) % 256) as u8,
        ((x / 256) % 256) as u8,
        ((x / 65536) % 256) as u8,
        ((x / 16777216) % 256) as u8,
        ((x / 4294967296) % 256) as u8,
        ((x / 1099511627776) % 256) as u8,
        ((x / 281474976710656) % 256) as u8,
        ((x / 72057594037927936) % 256) as u8,
    ]
}

/// The little-endian bytes of a 128-bit integer.
pub open spec fn le_bytes_u128(x: u128) -> Seq<u8> {
    seq![
        ((x / 1u128) % 256) as u8,
        ((x / 256u128) % 256) as u8,
        ((x / 65536u128) % 256) as u8,
        ((x / 16777216u128) % 256) as u8,
        ((x / 4294967296u128) % 256) as u8,
        ((x / 1099511627776u128) % 256) as u8,
        ((x / 281474976710656u128) % 256) as u8,
        ((x / 72057594037927936u128) % 256) as u8,
        ((x / 18446744073709551616u128) % 256) as u8,
        ((x / 4722366482869645213696u128) % 256) as u8,
        ((x / 1208925819614629174706176u128) % 256) as u8,
        ((x / 309485009821345068724781056u128) % 256) as u8,
        ((x / 79228162514264337593543950336u128) % 256) as u8,
        ((x / 20282409603651670423947251286016u128) % 256) as u8,
        ((x / 5192296858534827628530496329220096u128) % 256) as u8,
        ((x / 1329227995784915872903807060280344576u128) % 256) as u8,
    ]
}

/// An account identifier's 32 bytes: each limb little-endian, the least
/// significant limb first.
pub open spec fn actor_bytes(a: ActorId) -> Seq<u8> {
    le_bytes_u64(a.p0) + le_bytes_u64(a.p1) + le_bytes_u64(a.p2) + le_bytes_u64(a.p3)
}

/// Appends the little-endian bytes of `x`.
fn push_le_u64(out: &mut Vec<u8>, x: u64)
    ensures
        final(out)@ == old(out)@ + le_bytes_u64(x),
{
    out.push(((x / 1) % 256) as u8);
    out.push(((x / 256) % 256) as u8);
    out.push(((x / 65536) % 256) as u8);
    out.push(((x / 16777216) % 256) as u8);
    out.push(((x / 4294967296) % 256) as u8);
    out.push(((x / 1099511627776) % 256) as u8);
    out.push(((x / 281474976710656) % 256) as u8);
    out.push(((x / 72057594037927936) % 256) as u8);
    proof {
        assert(out@ =~= old(out)@ + le_bytes_u64(x));
    }
}

/// Appends the little-endian bytes of `x`.
fn push_le_u128(out: &mut Vec<u8>, x: u128)
    ensures
        final(out)@ == old(out)@ + le_bytes_u128(x),
{
    out.push(((x / 1u128) % 256) as u8);
    out.push(((x / 256u128) % 256) as u8);
    out.push(((x / 65536u128) % 256) as u8);
    out.push(((x / 16777216u128) % 256) as u8);
    out.push(((x / 4294967296u128) % 256) as u8);
    out.push(((x / 1099511627776u128) % 256) as u8);
    out.push(((x / 281474976710656u128) % 256) as u8);
    out.push(((x / 72057594037927936u128) % 256) as u8);
    out.push(((x / 18446744073709551616u128) % 256) as u8);
    out.push(((x / 4722366482869645213696u128) % 256) as u8);
    out.push(((x / 1208925819614629174706176u128) % 256) as u8);
    out.push(((x / 309485009821345068724781056u128) % 256) as u8);
    out.push(((x / 79228162514264337593543950336u128) % 256) as u8);
    out.push(((x / 20282409603651670423947251286016u128) % 256) as u8);
    out.push(((x / 5192296858534827628530496329220096u128) % 256) as u8);
    out.push(((x / 1329227995784915872903807060280344576u128) % 256) as u8);
    proof {
        assert(out@ =~= old(out)@ + le_bytes_u128(x));
    }
}

/// Appends an account identifier's 32 bytes.
fn push_actor(out: &mut Vec<u8>, a: &ActorId)
    ensures
        final(out)@ == old(out)@ + actor_bytes(*a),
{
    push_le_u64(out, a.p0);
    push_le_u64(out, a.p1);
    push_le_u64(out, a.p2);
    push_le_u64(out, a.p3);
    proof {
        assert(out@ =~= old(out)@ + actor_bytes(*a));
    }
}

/// An account identifier's 32 bytes as a byte vector; for the claimed
/// owner this is the sr25519 public key the signature must verify against.
pub fn actor_to_bytes(a: &ActorId) -> (r: Vec<u8>)
    ensures
        r@ == actor_bytes(*a),
{
    let mut out: Vec<u8> = Vec::new();
    push_actor(&mut out, a);
    proof {
        assert(out@ =~= actor_bytes(*a));
    }
    out
}

/// Whether `sig` is a valid sr25519 signature over `msg` by the public key
/// `pk`; the outcome is a function of the three byte strings alone.
pub uninterp spec fn sr25519_verifies(sig: Seq<u8>, msg: Seq<u8>, pk: Seq<u8>) -> bool;

/// Relies on sp_core::sr25519::Pair::verify: sr25519 signature verification
/// under substrate's fixed signing context, deterministic in the signature,
/// message and public-key bytes.
#[verifier::external_body]
fn sr25519_verify(sig: &Vec<u8>, msg: &Vec<u8>, pk: &Vec<u8>) -> (r: bool)
    requires
        sig@.len() == 64,
        pk@.len() == 32,
    ensures
        r == sr25519_verifies(sig@, msg@, pk@),
{
    let mut sig_raw = [0u8; 64];
    sig_raw.copy_from_slice(sig);
    let mut pk_raw = [0u8; 32];
    pk_raw.copy_from_slice(pk);
    let signature = sp_core::sr25519::Signature::from_raw(sig_raw);
    let public = sp_core::sr25519::Public::from_raw(pk_raw);
    <sp_core::sr25519::Pair as sp_core::Pair>::verify(&signature, msg.as_slice(), &public)
}

/// An off-chain-issued, signed, time-bounded capability standing in for an
/// on-chain approve call; immutable once constructed and never persisted.
#[derive(Clone, Copy, PartialEq, Eq, Structural, Debug)]
pub struct DelegatedApproveMessage {
    pub token_owner_id: ActorId,
    pub approved_actor_id: ActorId,
    pub nft_program_id: ActorId,
    pub token_id: Id,
    pub expiration_timestamp: u64,
}

/// The canonical, versioned serialization of a message: a format-version
/// byte, then the claimed owner, the approved actor, the bound program, the
/// token id and the expiration timestamp, each in little-endian bytes.
pub open spec fn payload_bytes(m: DelegatedApproveMessage) -> Seq<u8> {
    seq![1u8] + actor_bytes(m.token_owner_id) + actor_bytes(m.approved_actor_id) + actor_bytes(
        m.nft_program_id,
    ) + le_bytes_u128(m.token_id) + le_bytes_u64(m.expiration_timestamp)
}

/// The verdict of [`DelegatedApproveMessage::validate`], check by check and
/// in order: the caller must be the designated actor, the message must be
/// bound to this very ledger instance, the actor must not be the zero
/// account, the claimed owner must be the recorded owner, the expiry must
/// lie strictly in the future (equality counts as expired), and the
/// signature must be 64 bytes verifying over the canonical payload against
/// the claimed owner's key.
pub open spec fn spec_validate(
    m: DelegatedApproveMessage,
    caller: ActorId,
    program_id: ActorId,
    now: u64,
    sig: Seq<u8>,
    true_owner: ActorId,
) -> Result<(), TokenError> {
    if caller != m.approved_actor_id {
        Err(TokenError::NotAuthorized)
    } else if program_id != m.nft_program_id {
        Err(TokenError::WrongProgramBinding)
    } else if m.approved_actor_id == ActorId::spec_zero() {
        Err(TokenError::InvalidAddress)
    } else if true_owner != m.token_owner_id {
        Err(TokenError::WrongClaimedOwner)
    } else if now >= m.expiration_timestamp {
        Err(TokenError::ExpiredAuthorization)
    } else if sig.len() == 64 && sr25519_verifies(
        sig,
        payload_bytes(m),
        actor_bytes(m.token_owner_id),
    ) {
        Ok(())
    } else {
        Err(TokenError::SignatureMismatch)
    }
}

impl DelegatedApproveMessage {
    /// The explicit, versioned byte serialization of exactly the signed
    /// fields, independent of any in-memory layout; this is what the
    /// approval signature is made and checked over.
    pub fn signed_payload(&self) -> (r: Vec<u8>)
        ensures
            r@ == payload_bytes(*self),
    {
        let mut out: Vec<u8> = Vec::new();
        out.push(1u8);
        push_actor(&mut out, &self.token_owner_id);
        push_actor(&mut out, &self.approved_actor_id);
        push_actor(&mut out, &self.nft_program_id);
        push_le_u128(&mut out, self.token_id);
        push_le_u64(&mut out, self.expiration_timestamp);
        proof {
            assert(out@ =~= payload_bytes(*self));
        }
        out
    }

    /// Validates the capability against the presenting caller, this
    /// instance's program id, the current time, the recorded token owner
    /// and the supplied signature. Side-effect free: any single failing
    /// check aborts with its error and nothing is granted; the caller
    /// applies the approval separately, only after success.
    #[verifier::rlimit(60)]
    pub fn validate(
        &self,
        caller: ActorId,
        program_id: ActorId,
        now: u64,
        signed_approve: &Vec<u8>,
        true_token_owner: &ActorId,
    ) -> (r: Result<(), TokenError>)
        ensures
            r == spec_validate(*self, caller, program_id, now, signed_approve@, *true_token_owner),
    {
        if caller != self.approved_actor_id {
            return Err(TokenError::NotAuthorized);
        }
        if program_id != self.nft_program_id {
            return Err(TokenError::WrongProgramBinding);
        }
        if self.approved_actor_id.is_zero() {
            return Err(TokenError::InvalidAddress);
        }
        if *true_token_owner != self.token_owner_id {
            return Err(TokenError::WrongClaimedOwner);
        }
        if now >= self.expiration_timestamp {
            return Err(TokenError::ExpiredAuthorization);
        }
        if signed_approve.len() != 64 {
            return Err(TokenError::SignatureMismatch);
        }
        let payload = self.signed_payload();
        let pk = actor_to_bytes(&self.token_owner_id);
        if sr25519_verify(signed_approve, &payload, &pk) {
            Ok(())
        } else {
            Err(TokenError::SignatureMismatch)
        }
    }
}

} // verus!
