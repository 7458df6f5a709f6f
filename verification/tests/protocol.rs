use fusion_swap::coordinator::SwapCoordinator;
use fusion_swap::escrow::{Leg, Timelocks};
use fusion_swap::registry::Relayer;
use fusion_swap::secret::commit;
use fusion_swap::orderbook::OrderInput;
use fusion_swap::types::{Error, Path, Principal};

fn p(id: u64) -> Principal {
    Principal { id }
}

const OWNER: u64 = 1;
const RELAYER: u64 = 2;
const MAKER: u64 = 3;
const RESOLVER: u64 = 4;
const OTHER_RESOLVER: u64 = 5;
const STRANGER: u64 = 6;
const DEPOSIT: u128 = 500;

fn secret() -> Vec<u8> {
    vec![0x77u8; 32]
}

fn coordinator() -> SwapCoordinator {
    let mut c = SwapCoordinator::new(
        p(OWNER),
        p(RELAYER),
        DEPOSIT,
        Timelocks::source_defaults(),
        Timelocks::dest_defaults(),
    );
    c.add_resolver(p(OWNER), p(RESOLVER)).unwrap();
    c.add_resolver(p(OWNER), p(OTHER_RESOLVER)).unwrap();
    c
}

fn order_input(id: u8) -> OrderInput {
    OrderInput {
        order_id: vec![id; 32],
        maker: p(MAKER),
        token_in: vec![0xAA; 32],
        token_out: vec![0xBB; 32],
        amount_in: 10_000,
        min_amount_out: 100,
        max_amount_out: 200,
        hash_lock: commit(&secret()),
        path: Path::LeftToRight,
    }
}

#[test]
fn registry_mutation_is_owner_gated_and_idempotent() {
    let mut c = coordinator();
    assert_eq!(c.add_resolver(p(STRANGER), p(STRANGER)), Err(Error::NotAuthorized));
    assert!(!c.registry.is_resolver(p(STRANGER)));
    // Re-adding and removing an absent entry are no-op successes.
    c.add_resolver(p(OWNER), p(RESOLVER)).unwrap();
    assert!(c.registry.is_resolver(p(RESOLVER)));
    c.remove_resolver(p(OWNER), p(STRANGER)).unwrap();
    c.remove_resolver(p(OWNER), p(RESOLVER)).unwrap();
    assert!(!c.registry.is_resolver(p(RESOLVER)));
    c.remove_resolver(p(OWNER), p(RESOLVER)).unwrap();
    assert!(!c.registry.is_resolver(p(RESOLVER)));
    assert!(c.registry.is_resolver(p(OTHER_RESOLVER)));
}

#[test]
fn registry_ownership_can_be_handed_over() {
    let mut reg = Relayer::new(p(OWNER));
    assert_eq!(reg.transfer_ownership(p(STRANGER), p(STRANGER)), Err(Error::NotAuthorized));
    reg.transfer_ownership(p(OWNER), p(STRANGER)).unwrap();
    assert_eq!(reg.add_resolver(p(OWNER), p(RESOLVER)), Err(Error::NotAuthorized));
    reg.add_resolver(p(STRANGER), p(RESOLVER)).unwrap();
    assert!(reg.is_resolver(p(RESOLVER)));
}

#[test]
fn place_order_is_owner_gated() {
    let mut c = coordinator();
    assert_eq!(c.place_order(p(STRANGER), 0, order_input(1)), Err(Error::NotAuthorized));
    c.place_order(p(OWNER), 0, order_input(1)).unwrap();
    assert_eq!(c.place_order(p(OWNER), 5, order_input(1)), Err(Error::DuplicateOrder));
}

#[test]
fn fill_checks_resolver_deposit_and_timing() {
    let mut c = coordinator();
    c.place_order(p(OWNER), 0, order_input(1)).unwrap();
    let id = vec![1u8; 32];
    assert_eq!(
        c.fill_order(p(STRANGER), &id, 120, DEPOSIT),
        Err(Error::NotAuthorizedResolver)
    );
    assert_eq!(
        c.fill_order(p(RESOLVER), &id, 120, DEPOSIT - 1),
        Err(Error::InsufficientDeposit)
    );
    assert_eq!(
        c.fill_order(p(RESOLVER), &id, 119, DEPOSIT),
        Err(Error::AuctionNotStarted)
    );
    assert_eq!(
        c.fill_order(p(RESOLVER), &vec![9u8; 32], 120, DEPOSIT),
        Err(Error::OrderNotFound)
    );
    // Nothing was deployed by any of the failures.
    assert_eq!(c.factory.escrows.len(), 0);
}

#[test]
fn fill_deploys_the_source_escrow_and_is_exclusive() {
    let mut c = coordinator();
    c.place_order(p(OWNER), 0, order_input(1)).unwrap();
    let id = vec![1u8; 32];
    let (escrow, price) = c.fill_order(p(RESOLVER), &id, 120 + 300, DEPOSIT).unwrap();
    assert_eq!(price, 150);
    let e = c.factory.get_escrow(escrow).unwrap();
    assert_eq!(e.timelocks.leg, Leg::Source);
    assert_eq!(e.amount, 10_000);
    assert_eq!(e.asset, vec![0xAA; 32]);
    assert_eq!(e.maker, p(MAKER));
    assert_eq!(e.executive_resolver, p(RESOLVER));
    assert_eq!(e.deployed_at, 420);
    assert_eq!(e.security_deposit, DEPOSIT);
    assert_eq!(e.hash_lock, commit(&secret()));
    assert_eq!(c.factory.get_orderid_from_escrow(escrow).unwrap(), &id);
    assert_eq!(c.factory.get_escrow_from_orderid(&id, Leg::Source).unwrap(), escrow);
    // A competing fill afterwards fails and deploys nothing further.
    assert_eq!(
        c.fill_order(p(OTHER_RESOLVER), &id, 500, DEPOSIT),
        Err(Error::AlreadyFilled)
    );
    assert_eq!(c.factory.escrows.len(), 1);
}

#[test]
fn dest_leg_belongs_to_the_winning_resolver() {
    let mut c = coordinator();
    c.place_order(p(OWNER), 0, order_input(1)).unwrap();
    let id = vec![1u8; 32];
    assert_eq!(
        c.deploy_dest(p(RESOLVER), &id, 100, DEPOSIT),
        Err(Error::NotExecutiveResolver)
    );
    let (_, price) = c.fill_order(p(RESOLVER), &id, 120, DEPOSIT).unwrap();
    assert_eq!(price, 200);
    assert_eq!(
        c.deploy_dest(p(OTHER_RESOLVER), &id, 130, DEPOSIT),
        Err(Error::NotExecutiveResolver)
    );
    assert_eq!(
        c.deploy_dest(p(STRANGER), &id, 130, DEPOSIT),
        Err(Error::NotAuthorizedResolver)
    );
    let escrow = c.deploy_dest(p(RESOLVER), &id, 130, DEPOSIT).unwrap();
    let e = c.factory.get_escrow(escrow).unwrap();
    assert_eq!(e.timelocks.leg, Leg::Dest);
    // Sized to the locked clearing price, in the output asset.
    assert_eq!(e.amount, 200);
    assert_eq!(e.asset, vec![0xBB; 32]);
    assert_eq!(e.hash_lock, commit(&secret()));
    // One destination escrow per order.
    assert_eq!(
        c.deploy_dest(p(RESOLVER), &id, 140, DEPOSIT),
        Err(Error::DuplicateOrder)
    );
}

#[test]
fn the_same_secret_unlocks_both_legs() {
    let mut c = coordinator();
    c.place_order(p(OWNER), 0, order_input(1)).unwrap();
    let id = vec![1u8; 32];
    let (src, _) = c.fill_order(p(RESOLVER), &id, 120, DEPOSIT).unwrap();
    let dest = c.deploy_dest(p(RESOLVER), &id, 120, DEPOSIT).unwrap();

    // The resolver reveals the secret on the destination leg first: the
    // maker is paid there.
    let s_dest = c.withdraw(dest, 120 + 130, p(RESOLVER), &secret()).unwrap();
    assert_eq!(s_dest.asset_recipient, p(MAKER));
    assert_eq!(s_dest.asset_amount, 200);

    // The now-public secret releases the source leg to the resolver.
    let s_src = c.withdraw(src, 120 + 130, p(RESOLVER), &secret()).unwrap();
    assert_eq!(s_src.asset_recipient, p(RESOLVER));
    assert_eq!(s_src.asset_amount, 10_000);

    // Each leg settles exactly once.
    assert_eq!(
        c.withdraw(dest, 120 + 140, p(RESOLVER), &secret()),
        Err(Error::AlreadySettled)
    );
    assert_eq!(
        c.withdraw(src, 120 + 140, p(RESOLVER), &secret()),
        Err(Error::AlreadySettled)
    );
}

#[test]
fn a_stalled_swap_can_be_completed_by_any_whitelisted_resolver() {
    let mut c = coordinator();
    c.place_order(p(OWNER), 0, order_input(1)).unwrap();
    let id = vec![1u8; 32];
    let (src, _) = c.fill_order(p(RESOLVER), &id, 120, DEPOSIT).unwrap();
    // Public window on the source leg: [480, 720) from deployment at 120.
    assert_eq!(
        c.public_withdraw(src, 120 + 400, p(STRANGER), &secret()),
        Err(Error::NotAuthorizedResolver)
    );
    let s = c.public_withdraw(src, 120 + 400, p(OTHER_RESOLVER), &secret()).unwrap();
    assert_eq!(s.asset_recipient, p(RESOLVER));
    assert_eq!(s.deposit_recipient, p(OTHER_RESOLVER));
}

#[test]
fn a_removed_resolver_loses_public_rights_but_keeps_executive_ones() {
    let mut c = coordinator();
    c.place_order(p(OWNER), 0, order_input(1)).unwrap();
    let id = vec![1u8; 32];
    let (src, _) = c.fill_order(p(RESOLVER), &id, 120, DEPOSIT).unwrap();
    c.remove_resolver(p(OWNER), p(RESOLVER)).unwrap();
    // No public-phase rights any more, even on its own escrow.
    assert_eq!(
        c.public_withdraw(src, 120 + 400, p(RESOLVER), &secret()),
        Err(Error::NotAuthorizedResolver)
    );
    // Executive rights are frozen at deployment and survive removal.
    let s = c.withdraw(src, 120 + 130, p(RESOLVER), &secret()).unwrap();
    assert_eq!(s.asset_recipient, p(RESOLVER));
}

#[test]
fn timed_out_swap_is_cancelled_back_to_the_maker() {
    let mut c = coordinator();
    c.place_order(p(OWNER), 0, order_input(1)).unwrap();
    let id = vec![1u8; 32];
    let (src, _) = c.fill_order(p(RESOLVER), &id, 120, DEPOSIT).unwrap();
    // Nobody revealed the secret; the executive resolver cancels in its
    // window and the maker is made whole.
    assert_eq!(c.cancel(src, 120 + 500, p(RESOLVER)), Err(Error::WindowNotOpen));
    let s = c.cancel(src, 120 + 650, p(RESOLVER)).unwrap();
    assert_eq!(s.asset_recipient, p(MAKER));
    assert_eq!(s.asset_amount, 10_000);
    assert_eq!(s.deposit_recipient, p(RESOLVER));
}

#[test]
fn public_cancel_after_the_last_offset() {
    let mut c = coordinator();
    c.place_order(p(OWNER), 0, order_input(1)).unwrap();
    let id = vec![1u8; 32];
    let (src, _) = c.fill_order(p(RESOLVER), &id, 120, DEPOSIT).unwrap();
    assert_eq!(
        c.public_cancel(src, 120 + 719, p(OTHER_RESOLVER)),
        Err(Error::WindowNotOpen)
    );
    let s = c.public_cancel(src, 120 + 720, p(OTHER_RESOLVER)).unwrap();
    assert_eq!(s.asset_recipient, p(MAKER));
    assert_eq!(s.deposit_recipient, p(OTHER_RESOLVER));
}

#[test]
fn escrow_addresses_are_checked() {
    let mut c = coordinator();
    assert_eq!(c.withdraw(0, 100, p(RESOLVER), &secret()), Err(Error::OrderNotFound));
    assert_eq!(c.public_cancel(3, 100, p(RESOLVER)), Err(Error::OrderNotFound));
    assert_eq!(c.factory.get_orderid_from_escrow(0), Err(Error::OrderNotFound));
}

#[test]
fn signal_share_secret_is_resolver_gated() {
    let c = coordinator();
    let err = c.signal_share_secret(
        p(STRANGER),
        vec![1u8; 32],
        vec![2u8; 32],
        vec![3u8; 32],
    );
    assert!(err.is_err());
    let sig = c
        .signal_share_secret(p(RESOLVER), vec![1u8; 32], vec![2u8; 32], vec![3u8; 32])
        .unwrap();
    assert_eq!(sig.escrow_src, vec![1u8; 32]);
    assert_eq!(sig.escrow_dest, vec![2u8; 32]);
    assert_eq!(sig.order_id, vec![3u8; 32]);
    assert_eq!(sig.resolver, p(RESOLVER));
}
