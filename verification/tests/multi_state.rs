use gear_lib::account::ActorId;
use gear_lib::encodable::MTState;
use gear_lib::errors::TokenError;
use gear_lib::multi::{ApproveType, MTState as SuperMTState};

#[test]
fn total_supply() {
    let mut state = SuperMTState::new();
    let total_supply: u128 = 1000;

    state.mint(1u64.into(), 1u128, total_supply).unwrap();

    let encoded_state = MTState::from(state);

    assert_eq!(encoded_state.total_supply(None), total_supply);
    assert_eq!(encoded_state.total_supply(Some(&0u128)), 0u128);
    assert_eq!(encoded_state.total_supply(Some(&1u128)), total_supply);
}

#[test]
fn balance_of() {
    let mut state = SuperMTState::new();
    let amount: u128 = 1000;

    state.mint(1u64.into(), 0u128, amount).unwrap();
    state.mint(1u64.into(), 1u128, amount).unwrap();

    let encoded_state = MTState::from(state);

    assert_eq!(encoded_state.balance_of(2u64.into(), None), 0u128);
    assert_eq!(encoded_state.balance_of(2u64.into(), Some(&0u128)), 0u128);
    assert_eq!(encoded_state.balance_of(1u64.into(), None), amount + amount);
    assert_eq!(encoded_state.balance_of(1u64.into(), Some(&0u128)), amount);
    assert_eq!(encoded_state.balance_of(1u64.into(), Some(&0u128)), amount);
}

#[test]
fn allowance() {
    let mut state = SuperMTState::new();

    state.mint(1u64.into(), 0u128, 1000u128).unwrap();
    state
        .approve(1u64.into(), 2u64.into(), ApproveType::Allowance((0u128, 1223u128)))
        .unwrap();

    let mut encoded_state = MTState::from(state.clone());

    assert_eq!(
        encoded_state.allowance(1u64.into(), 2u64.into(), Some(&0u128)),
        1223u128
    );

    state
        .approve(1u64.into(), 2u64.into(), ApproveType::Operator(true))
        .unwrap();

    encoded_state = MTState::from(state);

    assert_eq!(
        encoded_state.allowance(1u64.into(), 2u64.into(), Some(&0u128)),
        u128::MAX
    );
}

#[test]
fn get_attribute() {
    let key: Vec<u8> = "A".into();
    let value: Vec<u8> = "B".into();
    let mut state = SuperMTState::new();

    state.mint(1u64.into(), 0u128, 0u128).unwrap();
    state
        .set_attribute(&0u128, key.clone(), value.clone())
        .unwrap();

    let encoded_state = MTState::from(state);

    assert_eq!(
        encoded_state.get_attribute(&123u128, &key),
        Err(TokenError::UnknownId)
    );
    assert_eq!(encoded_state.get_attribute(&0u128, &"ABCD".into()), Ok(None));
    assert_eq!(encoded_state.get_attribute(&0u128, &key), Ok(Some(&value)));
}

#[test]
fn mint_and_burn_keep_views_consistent() {
    let a: ActorId = 1u64.into();
    let b: ActorId = 2u64.into();
    let mut state = SuperMTState::new();

    state.mint(a, 1u128, 100).unwrap();
    state.mint(a, 2u128, 50).unwrap();
    state.mint(b, 1u128, 25).unwrap();

    assert_eq!(state.balance_of(a, Some(&1u128)), 100);
    assert_eq!(state.balance_of(a, Some(&2u128)), 50);
    assert_eq!(state.balance_of(a, None), 150);
    assert_eq!(state.balance_of(b, None), 25);

    let snap = MTState::from(state.clone());
    assert_eq!(snap.total_supply(None), 175);
    assert_eq!(snap.total_supply(Some(&1u128)), 125);

    state.burn(a, 1u128, 60).unwrap();
    assert_eq!(state.balance_of(a, Some(&1u128)), 40);
    assert_eq!(state.balance_of(a, None), 90);
    let snap2 = MTState::from(state.clone());
    assert_eq!(snap2.total_supply(None), 115);
    assert_eq!(snap2.total_supply(Some(&1u128)), 65);

    assert_eq!(
        state.burn(a, 1u128, 41),
        Err(TokenError::InsufficientBalance)
    );
    assert_eq!(state.balance_of(a, Some(&1u128)), 40);
}

#[test]
fn operator_for_all_returns_max_sentinel() {
    let a: ActorId = 1u64.into();
    let d: ActorId = 4u64.into();
    let mut state = SuperMTState::new();

    state.mint(a, 7u128, 10).unwrap();
    state.approve(a, d, ApproveType::Operator(true)).unwrap();

    assert_eq!(state.allowance(a, d, Some(&7u128)), u128::MAX);
    assert_eq!(state.allowance(a, d, Some(&999u128)), u128::MAX);
    assert_eq!(state.allowance(a, d, None), u128::MAX);

    state.approve(a, d, ApproveType::Operator(false)).unwrap();
    assert_eq!(state.allowance(a, d, Some(&7u128)), 0);
    assert_eq!(state.allowance(a, d, None), 0);
}

#[test]
fn operator_grant_keeps_per_id_allowances() {
    let a: ActorId = 1u64.into();
    let c: ActorId = 3u64.into();
    let mut state = SuperMTState::new();

    state.mint(a, 5u128, 10).unwrap();
    state
        .approve(a, c, ApproveType::Allowance((5u128, 77)))
        .unwrap();
    state.approve(a, c, ApproveType::Operator(true)).unwrap();
    state.approve(a, c, ApproveType::Operator(false)).unwrap();

    assert_eq!(state.allowance(a, c, Some(&5u128)), 77);
}

#[test]
fn allowance_overwrites_not_adds() {
    let a: ActorId = 1u64.into();
    let c: ActorId = 3u64.into();
    let mut state = SuperMTState::new();

    state.mint(a, 5u128, 10).unwrap();
    state
        .approve(a, c, ApproveType::Allowance((5u128, 50)))
        .unwrap();
    state
        .approve(a, c, ApproveType::Allowance((5u128, 120)))
        .unwrap();

    assert_eq!(state.allowance(a, c, Some(&5u128)), 120);
}

#[test]
fn set_attribute_unknown_id_and_overwrite() {
    let mut state = SuperMTState::new();

    assert_eq!(
        state.set_attribute(&9u128, "k".into(), "v".into()),
        Err(TokenError::UnknownId)
    );

    state.mint(1u64.into(), 9u128, 0).unwrap();
    state.set_attribute(&9u128, "k".into(), "v1".into()).unwrap();
    state.set_attribute(&9u128, "k".into(), "v2".into()).unwrap();

    let expected: Vec<u8> = "v2".into();
    assert_eq!(state.get_attribute(&9u128, &"k".into()), Ok(Some(&expected)));
}

#[test]
fn mint_to_zero_account_is_refused() {
    let mut state = SuperMTState::new();
    assert_eq!(
        state.mint(ActorId::zero(), 1u128, 5),
        Err(TokenError::InvalidAddress)
    );
    assert_eq!(state.balance_of(ActorId::zero(), None), 0);
}

#[test]
fn snapshots_of_equal_histories_are_equal() {
    let mut s1 = SuperMTState::new();
    let mut s2 = SuperMTState::new();
    for s in [&mut s1, &mut s2] {
        s.mint(1u64.into(), 1u128, 10).unwrap();
        s.mint(2u64.into(), 1u128, 20).unwrap();
        s.set_attribute(&1u128, "k".into(), "v".into()).unwrap();
    }
    assert_eq!(MTState::from(s1), MTState::from(s2));
}

#[test]
fn snapshots_of_equal_states_are_equal() {
    // The same logical state reached through different operation orders
    // converts to structurally equal snapshots: every table is kept in
    // ascending key order, so nothing depends on insertion history.
    let a: ActorId = 1u64.into();
    let b: ActorId = 2u64.into();
    let c: ActorId = 3u64.into();
    let mut s1 = SuperMTState::new();
    let mut s2 = SuperMTState::new();

    s1.mint(a, 1u128, 10).unwrap();
    s1.mint(b, 2u128, 20).unwrap();
    s1.approve(a, b, ApproveType::Allowance((1u128, 5))).unwrap();
    s1.approve(a, c, ApproveType::Allowance((1u128, 6))).unwrap();
    s1.approve(a, c, ApproveType::Operator(true)).unwrap();
    s1.approve(a, b, ApproveType::Operator(true)).unwrap();
    s1.set_attribute(&1u128, "x".into(), "1".into()).unwrap();
    s1.set_attribute(&1u128, "a".into(), "2".into()).unwrap();

    s2.mint(b, 2u128, 20).unwrap();
    s2.mint(a, 1u128, 10).unwrap();
    s2.approve(a, c, ApproveType::Allowance((1u128, 6))).unwrap();
    s2.approve(a, b, ApproveType::Allowance((1u128, 5))).unwrap();
    s2.approve(a, b, ApproveType::Operator(true)).unwrap();
    s2.approve(a, c, ApproveType::Operator(true)).unwrap();
    s2.set_attribute(&1u128, "a".into(), "2".into()).unwrap();
    s2.set_attribute(&1u128, "x".into(), "1".into()).unwrap();

    assert_eq!(MTState::from(s1), MTState::from(s2));
}
