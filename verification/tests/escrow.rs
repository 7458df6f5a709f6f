use fusion_swap::escrow::{Escrow, Phase, Timelocks, phase};
use fusion_swap::registry::Relayer;
use fusion_swap::secret::commit;
use fusion_swap::types::{Error, Principal};

fn p(id: u64) -> Principal {
    Principal { id }
}

const MAKER: u64 = 1;
const RESOLVER: u64 = 2;
const KEEPER: u64 = 3;

fn secret() -> Vec<u8> {
    vec![0xC4u8; 32]
}

fn wrong_secret() -> Vec<u8> {
    vec![0xC5u8; 32]
}

/// The reference source-leg escrow of the scenario: deployed at 0 with
/// offsets 120 / 360 / 600 (and 720 for the executive-cancel bound).
fn source_escrow() -> Escrow {
    Escrow {
        order_id: vec![7u8; 32],
        hash_lock: commit(&secret()),
        deployed_at: 0,
        timelocks: Timelocks::source_defaults(),
        maker: p(MAKER),
        executive_resolver: p(RESOLVER),
        asset: vec![0xAA; 32],
        amount: 1_000,
        security_deposit: 50,
        settled: false,
    }
}

fn dest_escrow() -> Escrow {
    Escrow {
        timelocks: Timelocks::dest_defaults(),
        asset: vec![0xBB; 32],
        amount: 777,
        ..source_escrow()
    }
}

fn registry_with_keeper() -> Relayer {
    let mut reg = Relayer::new(p(100));
    reg.add_resolver(p(100), p(KEEPER)).unwrap();
    reg
}

#[test]
fn phases_partition_the_timeline() {
    let tl = Timelocks::source_defaults();
    assert_eq!(phase(&tl, 1000, 0), Phase::Locked);
    assert_eq!(phase(&tl, 0, 0), Phase::Locked);
    assert_eq!(phase(&tl, 0, 119), Phase::Locked);
    assert_eq!(phase(&tl, 0, 120), Phase::ExecutiveWithdraw);
    assert_eq!(phase(&tl, 0, 359), Phase::ExecutiveWithdraw);
    assert_eq!(phase(&tl, 0, 360), Phase::PublicWithdraw);
    assert_eq!(phase(&tl, 0, 599), Phase::PublicWithdraw);
    assert_eq!(phase(&tl, 0, 600), Phase::ExecutiveCancel);
    assert_eq!(phase(&tl, 0, 719), Phase::ExecutiveCancel);
    assert_eq!(phase(&tl, 0, 720), Phase::PublicCancel);
    assert_eq!(phase(&tl, 0, u64::MAX), Phase::PublicCancel);
}

#[test]
fn phase_depends_on_elapsed_time_alone() {
    let tl = Timelocks::dest_defaults();
    for offset in [0u64, 1, 119, 120, 239, 240, 359, 360, 10_000] {
        assert_eq!(phase(&tl, 0, offset), phase(&tl, 5_000, 5_000 + offset));
    }
    // The destination leg has no executive-cancel phase.
    assert_eq!(phase(&tl, 0, 360), Phase::PublicCancel);
}

#[test]
fn withdraw_scenario_full_lifecycle() {
    let mut e = source_escrow();
    // Too early: the finality lock holds until 120.
    assert_eq!(e.withdraw(100, p(RESOLVER), &secret()), Err(Error::WindowNotOpen));
    // In the window but with the wrong secret.
    assert_eq!(e.withdraw(200, p(RESOLVER), &wrong_secret()), Err(Error::InvalidSecret));
    // In the window with the right secret: drains in full.
    let s = e.withdraw(200, p(RESOLVER), &secret()).unwrap();
    assert_eq!(s.asset_recipient, p(RESOLVER));
    assert_eq!(s.asset_amount, 1_000);
    assert_eq!(s.deposit_recipient, p(RESOLVER));
    assert_eq!(s.deposit_amount, 50);
    // A repeat attempt finds the escrow spent.
    assert_eq!(e.withdraw(250, p(RESOLVER), &secret()), Err(Error::AlreadySettled));
    let reg = registry_with_keeper();
    assert_eq!(
        e.public_withdraw(400, p(KEEPER), &reg, &secret()),
        Err(Error::AlreadySettled)
    );
    assert_eq!(e.cancel(650, p(RESOLVER)), Err(Error::AlreadySettled));
    assert_eq!(e.public_cancel(800, p(KEEPER), &reg), Err(Error::AlreadySettled));
}

#[test]
fn withdraw_rejects_wrong_caller_and_late_calls() {
    let mut e = source_escrow();
    assert_eq!(e.withdraw(200, p(KEEPER), &secret()), Err(Error::NotExecutiveResolver));
    assert_eq!(e.withdraw(360, p(RESOLVER), &secret()), Err(Error::WindowClosed));
    assert!(!e.settled);
}

#[test]
fn public_withdraw_requires_a_whitelisted_caller() {
    let mut e = source_escrow();
    let reg = registry_with_keeper();
    // A non-whitelisted address fails regardless of secret correctness.
    assert_eq!(
        e.public_withdraw(400, p(9), &reg, &secret()),
        Err(Error::NotAuthorizedResolver)
    );
    assert_eq!(
        e.public_withdraw(400, p(9), &reg, &wrong_secret()),
        Err(Error::NotAuthorizedResolver)
    );
    // The whitelisted keeper still needs the real secret.
    assert_eq!(
        e.public_withdraw(400, p(KEEPER), &reg, &wrong_secret()),
        Err(Error::InvalidSecret)
    );
    // On the source leg the asset goes to the executive resolver, the
    // deposit to the keeper that completed the swap.
    let s = e.public_withdraw(400, p(KEEPER), &reg, &secret()).unwrap();
    assert_eq!(s.asset_recipient, p(RESOLVER));
    assert_eq!(s.deposit_recipient, p(KEEPER));
}

#[test]
fn public_withdraw_window_is_bounded() {
    let mut e = source_escrow();
    let reg = registry_with_keeper();
    assert_eq!(
        e.public_withdraw(200, p(KEEPER), &reg, &secret()),
        Err(Error::WindowNotOpen)
    );
    assert_eq!(
        e.public_withdraw(600, p(KEEPER), &reg, &secret()),
        Err(Error::WindowClosed)
    );
}

#[test]
fn executive_cancel_returns_the_input_to_the_maker() {
    let mut e = source_escrow();
    assert_eq!(e.cancel(599, p(RESOLVER)), Err(Error::WindowNotOpen));
    assert_eq!(e.cancel(650, p(KEEPER)), Err(Error::NotExecutiveResolver));
    let s = e.cancel(650, p(RESOLVER)).unwrap();
    assert_eq!(s.asset_recipient, p(MAKER));
    assert_eq!(s.asset_amount, 1_000);
    assert_eq!(s.deposit_recipient, p(RESOLVER));
    assert_eq!(e.cancel(651, p(RESOLVER)), Err(Error::AlreadySettled));
}

#[test]
fn executive_cancel_window_closes_at_the_public_bound() {
    let mut e = source_escrow();
    assert_eq!(e.cancel(720, p(RESOLVER)), Err(Error::WindowClosed));
}

#[test]
fn public_cancel_opens_at_the_fourth_offset_on_the_source_leg() {
    let mut e = source_escrow();
    let reg = registry_with_keeper();
    assert_eq!(e.public_cancel(719, p(KEEPER), &reg), Err(Error::WindowNotOpen));
    assert_eq!(e.public_cancel(720, p(9), &reg), Err(Error::NotAuthorizedResolver));
    let s = e.public_cancel(720, p(KEEPER), &reg).unwrap();
    assert_eq!(s.asset_recipient, p(MAKER));
    assert_eq!(s.deposit_recipient, p(KEEPER));
}

#[test]
fn dest_leg_releases_to_the_maker_and_cancels_to_the_resolver() {
    let reg = registry_with_keeper();
    // Withdrawal pays the maker.
    let mut e = dest_escrow();
    let s = e.withdraw(130, p(RESOLVER), &secret()).unwrap();
    assert_eq!(s.asset_recipient, p(MAKER));
    assert_eq!(s.asset_amount, 777);
    // Public cancellation opens at the third offset and refunds the
    // resolver's liquidity.
    let mut e2 = dest_escrow();
    assert_eq!(e2.public_cancel(359, p(KEEPER), &reg), Err(Error::WindowNotOpen));
    let s2 = e2.public_cancel(360, p(KEEPER), &reg).unwrap();
    assert_eq!(s2.asset_recipient, p(RESOLVER));
    assert_eq!(s2.deposit_recipient, p(KEEPER));
}

#[test]
fn dest_public_withdraw_window() {
    let reg = registry_with_keeper();
    let mut e = dest_escrow();
    assert_eq!(
        e.public_withdraw(239, p(KEEPER), &reg, &secret()),
        Err(Error::WindowNotOpen)
    );
    let s = e.public_withdraw(240, p(KEEPER), &reg, &secret()).unwrap();
    assert_eq!(s.asset_recipient, p(MAKER));
    assert_eq!(
        e.public_withdraw(300, p(KEEPER), &reg, &secret()),
        Err(Error::AlreadySettled)
    );
}
