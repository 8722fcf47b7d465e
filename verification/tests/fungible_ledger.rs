use gear_lib::account::ActorId;
use gear_lib::errors::TokenError;
use gear_lib::fungible::{FTApproval, FTQuery, FTQueryReply, FTState, FTTransfer};

fn acc(x: u64) -> ActorId {
    ActorId::from(x)
}

#[test]
fn mint_then_transfer_scenario() {
    let a = acc(1);
    let b = acc(2);
    let origin = acc(9);
    let mut ft = FTState::new();

    ft.mint(a, 1000);
    let ev = ft.transfer(a, origin, a, b, 400).unwrap();

    assert_eq!(ev, FTTransfer { from: a, to: b, amount: 400 });
    assert_eq!(ft.balance_of(a), 600);
    assert_eq!(ft.balance_of(b), 400);
    assert_eq!(ft.proc_state(FTQuery::TotalSupply), Some(FTQueryReply::TotalSupply(1000)));
}

#[test]
fn overdrawn_allowance_leaves_state_unchanged() {
    // C attempts the move directly, so C is its own transaction origin.
    let a = acc(1);
    let b = acc(2);
    let c = acc(3);
    let mut ft = FTState::new();

    ft.mint(a, 1000);
    ft.approve(a, c, 100).unwrap();

    assert_eq!(ft.transfer(c, c, a, b, 150), Err(TokenError::NotAuthorized));
    assert_eq!(ft.balance_of(a), 1000);
    assert_eq!(ft.balance_of(b), 0);
    assert_eq!(ft.allowance_of(a, c), 100);
}

#[test]
fn approve_overwrites_stored_allowance() {
    let a = acc(1);
    let c = acc(3);
    let mut ft = FTState::new();

    assert_eq!(
        ft.approve(a, c, 50),
        Ok(FTApproval { from: a, to: c, amount: 50 })
    );
    assert_eq!(ft.allowance_of(a, c), 50);
    ft.approve(a, c, 120).unwrap();
    assert_eq!(ft.allowance_of(a, c), 120);
    ft.approve(a, c, 7).unwrap();
    assert_eq!(ft.allowance_of(a, c), 7);
}

#[test]
fn approve_zero_spender_is_refused() {
    let a = acc(1);
    let mut ft = FTState::new();
    assert_eq!(
        ft.approve(a, ActorId::zero(), 10),
        Err(TokenError::InvalidAddress)
    );
    assert_eq!(ft.allowance_of(a, ActorId::zero()), 0);
}

#[test]
fn transfer_spends_the_authorizing_allowance() {
    let a = acc(1);
    let b = acc(2);
    let c = acc(3);
    let origin = acc(9);
    let mut ft = FTState::new();

    ft.mint(a, 1000);
    ft.approve(a, c, 500).unwrap();
    ft.transfer(c, origin, a, b, 400).unwrap();

    assert_eq!(ft.balance_of(a), 600);
    assert_eq!(ft.balance_of(b), 400);
    assert_eq!(ft.allowance_of(a, c), 100);
}

#[test]
fn caller_balance_branch_bypasses_allowance() {
    // Preserved observed behavior: a caller whose own balance covers the
    // amount passes the authorization check without any allowance.
    let a = acc(1);
    let b = acc(2);
    let c = acc(3);
    let origin = acc(9);
    let mut ft = FTState::new();

    ft.mint(a, 1000);
    ft.mint(c, 400);
    ft.transfer(c, origin, a, b, 400).unwrap();

    assert_eq!(ft.balance_of(a), 600);
    assert_eq!(ft.balance_of(b), 400);
    assert_eq!(ft.balance_of(c), 400);
    assert_eq!(ft.allowance_of(a, c), 0);
}

#[test]
fn burn_debits_caller_and_supply() {
    let a = acc(1);
    let mut ft = FTState::new();

    ft.mint(a, 300);
    let ev = ft.burn(a, 120).unwrap();
    assert_eq!(ev, FTTransfer { from: a, to: ActorId::zero(), amount: 120 });
    assert_eq!(ft.balance_of(a), 180);
    assert_eq!(ft.proc_state(FTQuery::TotalSupply), Some(FTQueryReply::TotalSupply(180)));

    assert_eq!(ft.burn(a, 181), Err(TokenError::InsufficientBalance));
    assert_eq!(ft.balance_of(a), 180);
}

#[test]
fn transfer_refuses_zero_endpoints() {
    let a = acc(1);
    let origin = acc(9);
    let mut ft = FTState::new();
    ft.mint(a, 10);
    assert_eq!(
        ft.transfer(a, origin, ActorId::zero(), a, 1),
        Err(TokenError::InvalidAddress)
    );
    assert_eq!(
        ft.transfer(a, origin, a, ActorId::zero(), 1),
        Err(TokenError::InvalidAddress)
    );
    assert_eq!(ft.balance_of(a), 10);
}

#[test]
fn insufficient_from_balance_fails_cleanly() {
    let a = acc(1);
    let b = acc(2);
    let origin = acc(9);
    let mut ft = FTState::new();
    ft.mint(a, 100);
    assert_eq!(
        ft.transfer(a, origin, a, b, 101),
        Err(TokenError::InsufficientBalance)
    );
    assert_eq!(ft.balance_of(a), 100);
    assert_eq!(ft.balance_of(b), 0);
}

#[test]
fn queries_answer_from_state() {
    let a = acc(1);
    let mut ft = FTState::new();
    ft.name = "Gear".to_string();
    ft.symbol = "GRT".to_string();
    ft.decimals = 12;
    ft.mint(a, 55);

    assert_eq!(
        ft.proc_state(FTQuery::Name),
        Some(FTQueryReply::Name("Gear".to_string()))
    );
    assert_eq!(
        ft.proc_state(FTQuery::Symbol),
        Some(FTQueryReply::Symbol("GRT".to_string()))
    );
    assert_eq!(ft.proc_state(FTQuery::Decimals), Some(FTQueryReply::Decimals(12)));
    assert_eq!(
        ft.proc_state(FTQuery::BalanceOf { account: a }),
        Some(FTQueryReply::BalanceOf(55))
    );
    assert_eq!(
        ft.proc_state(FTQuery::BalanceOf { account: acc(8) }),
        Some(FTQueryReply::BalanceOf(0))
    );
}

#[test]
fn direct_caller_without_any_right_is_refused() {
    // A caller that is its own origin, with no balance and no allowance,
    // cannot move anyone's funds.
    let a = acc(1);
    let b = acc(2);
    let c = acc(3);
    let mut ft = FTState::new();

    ft.mint(a, 10);
    assert_eq!(ft.transfer(c, c, a, b, 5), Err(TokenError::NotAuthorized));
    assert!(!ft.can_transfer(c, c, a, 1));
    assert_eq!(ft.balance_of(a), 10);
    assert_eq!(ft.balance_of(b), 0);
}

#[test]
fn origin_equal_to_from_is_authorized() {
    // The transaction's original signer being the debited account
    // authorizes the intermediate caller without an allowance.
    let a = acc(1);
    let b = acc(2);
    let c = acc(3);
    let mut ft = FTState::new();

    ft.mint(a, 10);
    ft.transfer(c, a, a, b, 5).unwrap();
    assert_eq!(ft.balance_of(a), 5);
    assert_eq!(ft.balance_of(b), 5);
    assert_eq!(ft.allowance_of(a, c), 0);
}
