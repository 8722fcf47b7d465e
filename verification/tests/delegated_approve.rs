use gear_lib::account::ActorId;
use gear_lib::delegated::DelegatedApproveMessage;
use gear_lib::errors::TokenError;
use sp_core::Pair as PairTrait;

fn limb(bytes: &[u8], j: usize) -> u64 {
    let mut x: u64 = 0;
    for k in (0..8).rev() {
        x = (x << 8) | bytes[8 * j + k] as u64;
    }
    x
}

/// An account identifier holding exactly these 32 bytes (low limb first,
/// each limb little-endian), matching the library's byte serialization.
fn actor_from_bytes(bytes: &[u8]) -> ActorId {
    ActorId::new(limb(bytes, 0), limb(bytes, 1), limb(bytes, 2), limb(bytes, 3))
}

fn signed_message(expiry: u64) -> (DelegatedApproveMessage, Vec<u8>) {
    let pair = sp_core::sr25519::Pair::from_seed(&[7u8; 32]);
    let owner = actor_from_bytes(pair.public().as_ref());
    let message = DelegatedApproveMessage {
        token_owner_id: owner,
        approved_actor_id: ActorId::from(2u64),
        nft_program_id: ActorId::from(3u64),
        token_id: 42u128,
        expiration_timestamp: expiry,
    };
    let signature: Vec<u8> = pair.sign(&message.signed_payload()).0.to_vec();
    (message, signature)
}

#[test]
fn valid_delegated_approve_passes() {
    let (message, signature) = signed_message(1000);
    let r = message.validate(
        message.approved_actor_id,
        message.nft_program_id,
        999,
        &signature,
        &message.token_owner_id,
    );
    assert_eq!(r, Ok(()));
}

#[test]
fn expiry_equal_to_now_is_rejected() {
    // Strict inequality: a message expiring exactly now is already expired,
    // even though its signature is genuinely valid.
    let (message, signature) = signed_message(1000);
    let r = message.validate(
        message.approved_actor_id,
        message.nft_program_id,
        1000,
        &signature,
        &message.token_owner_id,
    );
    assert_eq!(r, Err(TokenError::ExpiredAuthorization));
}

#[test]
fn wrong_caller_is_rejected() {
    let (message, signature) = signed_message(1000);
    let r = message.validate(
        ActorId::from(77u64),
        message.nft_program_id,
        999,
        &signature,
        &message.token_owner_id,
    );
    assert_eq!(r, Err(TokenError::NotAuthorized));
}

#[test]
fn wrong_program_binding_is_rejected() {
    let (message, signature) = signed_message(1000);
    let r = message.validate(
        message.approved_actor_id,
        ActorId::from(88u64),
        999,
        &signature,
        &message.token_owner_id,
    );
    assert_eq!(r, Err(TokenError::WrongProgramBinding));
}

#[test]
fn wrong_claimed_owner_is_rejected() {
    let (message, signature) = signed_message(1000);
    let other = ActorId::from(55u64);
    let r = message.validate(
        message.approved_actor_id,
        message.nft_program_id,
        999,
        &signature,
        &other,
    );
    assert_eq!(r, Err(TokenError::WrongClaimedOwner));
}

#[test]
fn zero_approved_actor_is_rejected() {
    let pair = sp_core::sr25519::Pair::from_seed(&[7u8; 32]);
    let owner = actor_from_bytes(pair.public().as_ref());
    let message = DelegatedApproveMessage {
        token_owner_id: owner,
        approved_actor_id: ActorId::zero(),
        nft_program_id: ActorId::from(3u64),
        token_id: 42u128,
        expiration_timestamp: 1000,
    };
    let signature: Vec<u8> = pair.sign(&message.signed_payload()).0.to_vec();
    let r = message.validate(
        ActorId::zero(),
        message.nft_program_id,
        999,
        &signature,
        &message.token_owner_id,
    );
    assert_eq!(r, Err(TokenError::InvalidAddress));
}

#[test]
fn corrupted_signature_is_rejected() {
    let (message, mut signature) = signed_message(1000);
    signature[0] ^= 0x01;
    let r = message.validate(
        message.approved_actor_id,
        message.nft_program_id,
        999,
        &signature,
        &message.token_owner_id,
    );
    assert_eq!(r, Err(TokenError::SignatureMismatch));
}

#[test]
fn tampered_payload_breaks_verification() {
    let (message, signature) = signed_message(1000);
    let tampered = DelegatedApproveMessage { token_id: 43u128, ..message };
    let r = tampered.validate(
        tampered.approved_actor_id,
        tampered.nft_program_id,
        999,
        &signature,
        &tampered.token_owner_id,
    );
    assert_eq!(r, Err(TokenError::SignatureMismatch));
}

#[test]
fn payload_is_versioned_and_explicit() {
    let (message, _) = signed_message(0x0102030405060708);
    let payload = message.signed_payload();
    assert_eq!(payload.len(), 1 + 32 + 32 + 32 + 16 + 8);
    assert_eq!(payload[0], 1);
    // The expiration timestamp stands at the end, little-endian.
    assert_eq!(
        &payload[113..121],
        &[0x08, 0x07, 0x06, 0x05, 0x04, 0x03, 0x02, 0x01]
    );
    // The claimed owner's bytes are the signer's public key.
    let pair = sp_core::sr25519::Pair::from_seed(&[7u8; 32]);
    assert_eq!(&payload[1..33], &pair.public().0[..]);
}
