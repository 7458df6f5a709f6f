use fusion_swap::pricing::linear_price;
use fusion_swap::types::{Error, Path, Principal};
use fusion_swap::orderbook::{DutchAuction, OrderInput};

fn p(id: u64) -> Principal {
    Principal { id }
}

fn order_input(id: u8, min: u128, max: u128) -> OrderInput {
    OrderInput {
        order_id: vec![id; 32],
        maker: p(1),
        token_in: vec![0xAA; 32],
        token_out: vec![0xBB; 32],
        amount_in: 1_000,
        min_amount_out: min,
        max_amount_out: max,
        hash_lock: vec![0x11; 32],
        path: Path::LeftToRight,
    }
}

fn book_with_order(min: u128, max: u128, now: u64) -> DutchAuction {
    let mut book = DutchAuction::new(p(10));
    book.set_relayer(p(10), p(20)).unwrap();
    book.start_auction(p(20), now, order_input(7, min, max)).unwrap();
    book
}

#[test]
fn price_at_boundaries_and_midpoint() {
    // Auction opened at 0: start_time = 120, end = 720.
    let book = book_with_order(100, 200, 0);
    let id = vec![7u8; 32];
    assert_eq!(book.get_amount_out(&id, 120).unwrap(), 200);
    assert_eq!(book.get_amount_out(&id, 120 + 300).unwrap(), 150);
    assert_eq!(book.get_amount_out(&id, 120 + 600).unwrap(), 100);
    assert_eq!(book.get_amount_out(&id, 10_000).unwrap(), 100);
}

#[test]
fn price_before_start_quotes_maximum() {
    let book = book_with_order(100, 200, 0);
    let id = vec![7u8; 32];
    assert_eq!(book.get_amount_out(&id, 0).unwrap(), 200);
    assert_eq!(book.get_amount_out(&id, 119).unwrap(), 200);
}

#[test]
fn price_is_monotonically_non_increasing() {
    let book = book_with_order(3_333, 987_654, 0);
    let id = vec![7u8; 32];
    let mut last = u128::MAX;
    for now in (0..1000).step_by(7) {
        let q = book.get_amount_out(&id, now).unwrap();
        assert!(q <= last);
        assert!((3_333..=987_654).contains(&q));
        last = q;
    }
    assert_eq!(last, 3_333);
}

#[test]
fn linear_price_exact_interpolation() {
    // (200*510 + 100*90) / 600 = 111000 / 600 = 185.
    assert_eq!(linear_price(100, 200, 0, 600, 90), 185);
    // Floor division: (10*599 + 7*1) / 600 = 5997/600 = 9.
    assert_eq!(linear_price(7, 10, 0, 600, 1), 9);
    // Degenerate zero-duration auction clears at the maximum.
    assert_eq!(linear_price(5, 9, 50, 50, 1_000), 9);
    // Equal bounds stay fixed over the whole window.
    assert_eq!(linear_price(42, 42, 0, 600, 300), 42);
}

#[test]
fn unknown_order_cannot_be_quoted() {
    let book = book_with_order(100, 200, 0);
    assert_eq!(book.get_amount_out(&vec![9u8; 32], 200), Err(Error::OrderNotFound));
}

#[test]
fn duplicate_order_id_is_rejected() {
    let mut book = book_with_order(100, 200, 0);
    let r = book.start_auction(p(20), 5, order_input(7, 1, 2));
    assert_eq!(r, Err(Error::DuplicateOrder));
    // The stored order still quotes with the original bounds.
    assert_eq!(book.get_amount_out(&vec![7u8; 32], 120).unwrap(), 200);
}

#[test]
fn only_the_relayer_may_open_or_fill() {
    let mut book = book_with_order(100, 200, 0);
    assert_eq!(book.start_auction(p(99), 0, order_input(8, 1, 2)), Err(Error::NotAuthorized));
    assert_eq!(
        book.fill_order(p(99), p(30), &vec![7u8; 32], 500),
        Err(Error::NotAuthorized)
    );
}

#[test]
fn fill_locks_the_price_exactly_once() {
    let mut book = book_with_order(100, 200, 0);
    let id = vec![7u8; 32];
    // Too early: bidding opens at 120.
    assert_eq!(book.fill_order(p(20), p(30), &id, 119), Err(Error::AuctionNotStarted));
    // Settles at the instant's price.
    let price = book.fill_order(p(20), p(30), &id, 120 + 300).unwrap();
    assert_eq!(price, 150);
    // A later fill fails and does not re-price.
    assert_eq!(book.fill_order(p(20), p(31), &id, 120 + 450), Err(Error::AlreadyFilled));
    // The locked price is returned from then on, whatever the clock says.
    assert_eq!(book.get_amount_out(&id, 120 + 600).unwrap(), 150);
    assert_eq!(book.get_order_by_id(&id).unwrap().resolver_assigned, Some(p(30)));
}

#[test]
fn fill_of_unknown_order_fails() {
    let mut book = book_with_order(100, 200, 0);
    assert_eq!(
        book.fill_order(p(20), p(30), &vec![9u8; 32], 500),
        Err(Error::OrderNotFound)
    );
}

#[test]
fn hash_lock_is_kept_per_order() {
    let book = book_with_order(100, 200, 0);
    let id = vec![7u8; 32];
    assert_eq!(book.get_hash_lock_by_order_id(&id).unwrap(), &vec![0x11u8; 32]);
    assert_eq!(
        book.get_hash_lock_by_order_id(&vec![9u8; 32]),
        Err(Error::OrderNotFound)
    );
}
