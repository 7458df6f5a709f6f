use fusion_swap::tokens::{MockToken, WrappedTokens};
use fusion_swap::types::{Error, Principal};

fn p(id: u64) -> Principal {
    Principal { id }
}

const TOKEN: u64 = 50;
const ALICE: u64 = 1;
const BOB: u64 = 2;
const CAROL: u64 = 3;

#[test]
fn balances_default_to_zero() {
    let w = WrappedTokens::new();
    assert_eq!(w.get_balance(p(TOKEN), p(ALICE)), 0);
    assert_eq!(w.get_allowance(p(TOKEN), p(ALICE), p(BOB)), 0);
}

#[test]
fn deposit_and_withdraw_round_trip() {
    let mut w = WrappedTokens::new();
    assert_eq!(w.deposit(p(TOKEN), 0, p(ALICE)), Err(Error::TransferFailed));
    w.deposit(p(TOKEN), 900, p(ALICE)).unwrap();
    w.deposit(p(TOKEN), 100, p(ALICE)).unwrap();
    assert_eq!(w.get_balance(p(TOKEN), p(ALICE)), 1_000);
    assert_eq!(w.withdraw(p(TOKEN), 0, p(ALICE)), Err(Error::TransferFailed));
    assert_eq!(w.withdraw(p(TOKEN), 1_001, p(ALICE)), Err(Error::TransferFailed));
    w.withdraw(p(TOKEN), 250, p(ALICE)).unwrap();
    assert_eq!(w.get_balance(p(TOKEN), p(ALICE)), 750);
    // Another token's books are independent.
    assert_eq!(w.get_balance(p(TOKEN + 1), p(ALICE)), 0);
}

#[test]
fn deposit_rejects_a_balance_that_no_longer_fits() {
    let mut w = WrappedTokens::new();
    w.deposit(p(TOKEN), u128::MAX, p(ALICE)).unwrap();
    assert_eq!(w.deposit(p(TOKEN), 1, p(ALICE)), Err(Error::TransferFailed));
    assert_eq!(w.get_balance(p(TOKEN), p(ALICE)), u128::MAX);
}

#[test]
fn internal_transfer_moves_exactly_the_amount() {
    let mut w = WrappedTokens::new();
    w.deposit(p(TOKEN), 1_000, p(ALICE)).unwrap();
    assert_eq!(w.transfer(p(TOKEN), 0, p(BOB), p(ALICE)), Err(Error::TransferFailed));
    assert_eq!(
        w.transfer(p(TOKEN), 1_001, p(BOB), p(ALICE)),
        Err(Error::TransferFailed)
    );
    w.transfer(p(TOKEN), 400, p(BOB), p(ALICE)).unwrap();
    assert_eq!(w.get_balance(p(TOKEN), p(ALICE)), 600);
    assert_eq!(w.get_balance(p(TOKEN), p(BOB)), 400);
    // A transfer to oneself changes nothing.
    w.transfer(p(TOKEN), 500, p(ALICE), p(ALICE)).unwrap();
    assert_eq!(w.get_balance(p(TOKEN), p(ALICE)), 600);
}

#[test]
fn transfer_from_consumes_the_allowance() {
    let mut w = WrappedTokens::new();
    w.deposit(p(TOKEN), 1_000, p(ALICE)).unwrap();
    assert_eq!(
        w.approve(p(TOKEN), 1_001, p(BOB), p(ALICE)),
        Err(Error::TransferFailed)
    );
    w.approve(p(TOKEN), 300, p(BOB), p(ALICE)).unwrap();
    assert_eq!(w.get_allowance(p(TOKEN), p(ALICE), p(BOB)), 300);
    assert_eq!(
        w.transfer_from(p(TOKEN), 301, p(ALICE), p(CAROL), p(BOB)),
        Err(Error::TransferFailed)
    );
    w.transfer_from(p(TOKEN), 200, p(ALICE), p(CAROL), p(BOB)).unwrap();
    assert_eq!(w.get_balance(p(TOKEN), p(ALICE)), 800);
    assert_eq!(w.get_balance(p(TOKEN), p(CAROL)), 200);
    assert_eq!(w.get_allowance(p(TOKEN), p(ALICE), p(BOB)), 100);
    assert_eq!(
        w.transfer_from(p(TOKEN), 101, p(ALICE), p(CAROL), p(BOB)),
        Err(Error::TransferFailed)
    );
}

#[test]
fn permit_grants_once_per_signature() {
    let mut w = WrappedTokens::new();
    let hash = vec![0xABu8; 32];
    assert!(!w.is_signature_used(p(ALICE), &hash));
    w.permit(p(TOKEN), p(ALICE), p(BOB), 555, &hash).unwrap();
    assert!(w.is_signature_used(p(ALICE), &hash));
    assert_eq!(w.get_allowance(p(TOKEN), p(ALICE), p(BOB)), 555);
    // Replaying the same signature hash is rejected.
    assert_eq!(
        w.permit(p(TOKEN), p(ALICE), p(BOB), 999, &hash),
        Err(Error::NotAuthorized)
    );
    assert_eq!(w.get_allowance(p(TOKEN), p(ALICE), p(BOB)), 555);
    // The same hash from another owner is a different signature.
    w.permit(p(TOKEN), p(CAROL), p(BOB), 7, &hash).unwrap();
    assert_eq!(w.get_allowance(p(TOKEN), p(CAROL), p(BOB)), 7);
}

#[test]
fn mock_token_mint_and_move() {
    let mut t = MockToken::new(p(TOKEN));
    t.mint(p(ALICE), 1_000);
    assert_eq!(t.get_balance(p(ALICE)), 1_000);
    // Minting overwrites the balance outright.
    t.mint(p(ALICE), 600);
    assert_eq!(t.get_balance(p(ALICE)), 600);
    t.transfer(250, p(BOB), p(ALICE)).unwrap();
    assert_eq!(t.get_balance(p(ALICE)), 350);
    assert_eq!(t.get_balance(p(BOB)), 250);
    assert_eq!(t.transfer(0, p(BOB), p(ALICE)), Err(Error::TransferFailed));
    assert_eq!(t.transfer(351, p(BOB), p(ALICE)), Err(Error::TransferFailed));
}

#[test]
fn mock_token_transfer_from_checks_everything() {
    let mut t = MockToken::new(p(TOKEN));
    t.mint(p(ALICE), 100);
    assert_eq!(
        t.transfer_from(p(BOB), p(ALICE), p(CAROL), 10),
        Err(Error::TransferFailed)
    );
    t.approve(80, p(BOB), p(ALICE)).unwrap();
    assert_eq!(t.get_allowance(p(ALICE), p(BOB)), 80);
    t.transfer_from(p(BOB), p(ALICE), p(CAROL), 30).unwrap();
    assert_eq!(t.get_balance(p(ALICE)), 70);
    assert_eq!(t.get_balance(p(CAROL)), 30);
    assert_eq!(t.get_allowance(p(ALICE), p(BOB)), 50);
    // The allowance may exceed the remaining balance; the balance check
    // still holds.
    assert_eq!(
        t.transfer_from(p(BOB), p(ALICE), p(CAROL), 71),
        Err(Error::TransferFailed)
    );
}
