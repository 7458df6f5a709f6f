//! The Dutch-auction order book: one Order record per order identifier,
//! orchestrating the auction lifecycle. An order is created by
//! `start_auction`, mutated exactly once by `fill_order` — the auction's
//! settlement instant, which locks the cleared price in for good — and
//! never deleted.

use vstd::prelude::*;
use crate::pricing::{price_at, linear_price, AUCTION_DURATION, AUCTION_START_BUFFER};
use crate::types::{bytes_eq, Error, Path, Principal};

verus! {

/// What a maker submits to open an auction.
pub struct OrderInput {
    pub order_id: Vec<u8>,
    pub maker: Principal,
    pub token_in: Vec<u8>,
    pub token_out: Vec<u8>,
    pub amount_in: u128,
    pub min_amount_out: u128,
    pub max_amount_out: u128,
    pub hash_lock: Vec<u8>,
    pub path: Path,
}

/// One stored order. `amount_out` is zero and `resolver_assigned` unset
/// until the fill locks them in, exactly once.
pub struct Order {
    pub maker: Principal,
    pub token_in: Vec<u8>,
    pub token_out: Vec<u8>,
    pub amount_in: u128,
    pub amount_out: u128,
    pub min_amount_out: u128,
    pub max_amount_out: u128,
    pub resolver_assigned: Option<Principal>,
    pub path: Path,
    pub start_time: u64,
    pub hash_lock: Vec<u8>,
}

/// A stored order together with the identifier it is keyed by.
pub struct OrderEntry {
    pub order_id: Vec<u8>,
    pub order: Order,
}

/// The auction's clearing price for `order` quoted at `now`: linear decay
/// from the order's maximum at its start time down to its minimum at
/// start time plus the auction duration.
pub open spec fn order_price_at(o: Order, now: int) -> int {
    price_at(
        o.min_amount_out as int,
        o.max_amount_out as int,
        o.start_time as int,
        o.start_time + AUCTION_DURATION,
        now,
    )
}

/// For every valid order the price is monotonically non-increasing in
/// time and bounded within its `[min, max]` band: it equals the maximum
/// at the start time and the minimum from the end of the auction on.
pub proof fn lemma_order_price_law(o: Order, t1: int, t2: int)
    requires
        order_wf(o),
        t1 <= t2,
    ensures
        order_price_at(o, t2) <= order_price_at(o, t1),
        o.min_amount_out <= order_price_at(o, t1) <= o.max_amount_out,
        t1 <= o.start_time ==> order_price_at(o, t1) == o.max_amount_out,
        t1 >= o.start_time + AUCTION_DURATION ==> order_price_at(o, t1) == o.min_amount_out,
{
    let min = o.min_amount_out as int;
    let max = o.max_amount_out as int;
    let start = o.start_time as int;
    let end = o.start_time + AUCTION_DURATION;
    crate::pricing::lemma_price_bounds(min, max, start, end, t1);
    crate::pricing::lemma_price_monotone(min, max, start, end, t1, t2);
}

/// The auction's clearing price for `order`, quoted at `now`: the
/// pricer reads nothing but the order's bounds and the two timestamps,
/// so every independent executor computes the same value.
pub fn price(order: &Order, now: u64) -> (r: u128)
    requires
        order_wf(*order),
    ensures
        r == order_price_at(*order, now as int),
{
    linear_price(
        order.min_amount_out,
        order.max_amount_out,
        order.start_time,
        order.start_time + AUCTION_DURATION,
        now,
    )
}

/// Validity of a stored order: the price bounds are ordered and small
/// enough for exact interpolation arithmetic, the auction window fits the
/// clock, the hash lock is a full digest, and the settled amount is
/// locked inside the bounds exactly when the order is filled.
pub open spec fn order_wf(o: Order) -> bool {
    &&& o.min_amount_out <= o.max_amount_out
    &&& o.max_amount_out * AUCTION_DURATION <= u128::MAX
    &&& o.start_time + AUCTION_DURATION <= u64::MAX
    &&& o.hash_lock@.len() == 32
    &&& (o.resolver_assigned is None ==> o.amount_out == 0)
    &&& (o.resolver_assigned is Some ==> o.min_amount_out <= o.amount_out <= o.max_amount_out)
}

/// The first order stored under `id`, if any.
pub open spec fn find_order(s: Seq<OrderEntry>, id: Seq<u8>) -> Option<Order>
    decreases s.len(),
{
    if s.len() == 0 {
        None
    } else if s[0].order_id@ == id {
        Some(s[0].order)
    } else {
        find_order(s.drop_first(), id)
    }
}

/// If no entry carries `id`, the lookup misses.
proof fn lemma_find_order_none(s: Seq<OrderEntry>, id: Seq<u8>)
    requires
        forall|j: int| 0 <= j < s.len() ==> s[j].order_id@ != id,
    ensures
        find_order(s, id) is None,
    decreases s.len(),
{
    if s.len() > 0 {
        lemma_find_order_none(s.drop_first(), id);
    }
}

/// If `i` is the first index carrying `id`, the lookup finds that entry.
proof fn lemma_find_order_index(s: Seq<OrderEntry>, id: Seq<u8>, i: int)
    requires
        0 <= i < s.len(),
        s[i].order_id@ == id,
        forall|j: int| 0 <= j < i ==> s[j].order_id@ != id,
    ensures
        find_order(s, id) == Some(s[i].order),
    decreases i,
{
    if i > 0 {
        lemma_find_order_index(s.drop_first(), id, i - 1);
    }
}

/// Appending an entry leaves every present key's lookup unchanged and
/// makes the new entry visible under its own key if that key was absent.
proof fn lemma_find_order_push(s: Seq<OrderEntry>, e: OrderEntry, id: Seq<u8>)
    ensures
        find_order(s.push(e), id) == if find_order(s, id) is Some {
            find_order(s, id)
        } else if e.order_id@ == id {
            Some(e.order)
        } else {
            None
        },
    decreases s.len(),
{
    if s.len() == 0 {
        assert(s.push(e).drop_first() =~= s);
    } else {
        assert(s.push(e).drop_first() =~= s.drop_first().push(e));
        lemma_find_order_push(s.drop_first(), e, id);
    }
}

/// Replacing the entry at `i` with one carrying the same key leaves every
/// other key's lookup unchanged.
proof fn lemma_find_order_update(s: Seq<OrderEntry>, i: int, e: OrderEntry, id2: Seq<u8>)
    requires
        0 <= i < s.len(),
        e.order_id@ == s[i].order_id@,
        id2 != s[i].order_id@,
    ensures
        find_order(s.update(i, e), id2) == find_order(s, id2),
    decreases i,
{
    if i == 0 {
        assert(s.update(0, e).drop_first() =~= s.drop_first());
    } else {
        assert(s.update(i, e).drop_first() =~= s.drop_first().update(i - 1, e));
        lemma_find_order_update(s.drop_first(), i - 1, e, id2);
    }
}

/// A found order is one of the stored entries: the index of the entry
/// that a successful lookup returns.
pub proof fn lemma_find_order_is_stored(s: Seq<OrderEntry>, id: Seq<u8>) -> (i: int)
    requires
        find_order(s, id) is Some,
    ensures
        0 <= i < s.len(),
        s[i].order_id@ == id,
        s[i].order == find_order(s, id).unwrap(),
    decreases s.len(),
{
    if s[0].order_id@ == id {
        0
    } else {
        lemma_find_order_is_stored(s.drop_first(), id) + 1
    }
}

/// The order `o` after the fill settles it: the cleared price is written
/// into `amount_out` and the winning resolver recorded; nothing else
/// changes, ever.
pub open spec fn filled_order(o: Order, resolver: Principal, price: u128) -> Order {
    Order { amount_out: price, resolver_assigned: Some(resolver), ..o }
}

/// What the fill decides for an order that exists and a relayer-approved
/// caller: too early, already settled, or settled now at the clearing
/// price of this very instant.
pub open spec fn fill_outcome(o: Order, resolver: Principal, now: int) -> Result<Order, Error> {
    if now < o.start_time {
        Err(Error::AuctionNotStarted)
    } else if o.resolver_assigned is Some {
        Err(Error::AlreadyFilled)
    } else {
        Ok(filled_order(o, resolver, order_price_at(o, now) as u128))
    }
}

/// Filling is exclusive: once any fill succeeds, every fill attempt made
/// from then on — the clock never runs backwards — fails with
/// `AlreadyFilled`, and the price locked by the first fill is the
/// clearing price of the first fill's instant; it is never recomputed.
pub proof fn lemma_fill_exactly_once(
    o: Order,
    r1: Principal,
    now1: int,
    r2: Principal,
    now2: int,
)
    requires
        fill_outcome(o, r1, now1) is Ok,
        now1 <= now2,
    ensures
        fill_outcome(fill_outcome(o, r1, now1).unwrap(), r2, now2) == Err::<Order, Error>(
            Error::AlreadyFilled,
        ),
        fill_outcome(o, r1, now1).unwrap().amount_out == order_price_at(o, now1) as u128,
{
}

/// The order book: the owning principal, the relayer principal that
/// alone may open and fill auctions, and the stored orders.
pub struct DutchAuction {
    pub owner: Principal,
    pub relayer: Option<Principal>,
    pub orders: Vec<OrderEntry>,
}

impl DutchAuction {
    /// Every stored order is valid.
    pub open spec fn wf(self) -> bool {
        forall|i: int| 0 <= i < self.orders@.len() ==> order_wf(#[trigger] self.orders@[i].order)
    }

    /// A fresh book: the given owner, no relayer configured yet, no
    /// orders.
    pub fn new(owner: Principal) -> (r: DutchAuction)
        ensures
            r.wf(),
            r.owner == owner,
            r.relayer is None,
            r.orders@.len() == 0,
    {
        DutchAuction { owner, relayer: None, orders: Vec::new() }
    }

    /// Configure the relayer principal. Owner-gated.
    pub fn set_relayer(&mut self, caller: Principal, relayer: Principal) -> (r: Result<(), Error>)
        requires
            old(self).wf(),
        ensures
            final(self).wf(),
            final(self).owner == old(self).owner,
            final(self).orders@ == old(self).orders@,
            caller != old(self).owner ==> r == Err::<(), Error>(Error::NotAuthorized)
                && final(self).relayer == old(self).relayer,
            caller == old(self).owner ==> r == Ok::<(), Error>(()) && final(self).relayer == Some(
                relayer,
            ),
    {
        if caller.id != self.owner.id {
            return Err(Error::NotAuthorized);
        }
        self.relayer = Some(relayer);
        Ok(())
    }

    /// The first index carrying `order_id`, if any.
    fn find_index(&self, order_id: &Vec<u8>) -> (r: Option<usize>)
        ensures
            match r {
                Some(i) => i < self.orders@.len() && self.orders@[i as int].order_id@ == order_id@
                    && (forall|j: int| 0 <= j < i ==> self.orders@[j].order_id@ != order_id@)
                    && find_order(self.orders@, order_id@) == Some(self.orders@[i as int].order),
                None => find_order(self.orders@, order_id@) is None,
            },
    {
        let mut i: usize = 0;
        while i < self.orders.len()
            invariant
                i <= self.orders@.len(),
                forall|j: int| 0 <= j < i ==> self.orders@[j].order_id@ != order_id@,
            decreases self.orders@.len() - i,
        {
            if bytes_eq(&self.orders[i].order_id, order_id) {
                proof {
                    lemma_find_order_index(self.orders@, order_id@, i as int);
                }
                return Some(i);
            }
            i += 1;
        }
        proof {
            lemma_find_order_none(self.orders@, order_id@);
        }
        None
    }

    /// Open an auction for a new order. Only the configured relayer may
    /// call; an already-used order identifier is rejected rather than
    /// overwritten. The order is stored with its price still unsettled
    /// and bidding opening one start buffer after `now`.
    pub fn start_auction(&mut self, caller: Principal, now: u64, input: OrderInput) -> (r: Result<
        (),
        Error,
    >)
        requires
            old(self).wf(),
            input.min_amount_out <= input.max_amount_out,
            input.max_amount_out * AUCTION_DURATION <= u128::MAX,
            input.hash_lock@.len() == 32,
            now + AUCTION_START_BUFFER + AUCTION_DURATION <= u64::MAX,
        ensures
            final(self).wf(),
            final(self).owner == old(self).owner,
            final(self).relayer == old(self).relayer,
            old(self).relayer != Some(caller) ==> r == Err::<(), Error>(Error::NotAuthorized)
                && final(self).orders@ == old(self).orders@,
            old(self).relayer == Some(caller) && find_order(old(self).orders@, input.order_id@)
                is Some ==> r == Err::<(), Error>(Error::DuplicateOrder) && final(self).orders@
                == old(self).orders@,
            old(self).relayer == Some(caller) && find_order(old(self).orders@, input.order_id@)
                is None ==> {
                &&& r == Ok::<(), Error>(())
                &&& final(self).orders@.len() == old(self).orders@.len() + 1
                &&& final(self).orders@ == old(self).orders@.push(final(self).orders@.last())
                &&& final(self).orders@.last().order_id@ == input.order_id@
                &&& opened_order_matches(final(self).orders@.last().order, input, now as int)
                &&& find_order(final(self).orders@, input.order_id@) == Some(
                    final(self).orders@.last().order,
                )
                &&& (forall|id2: Seq<u8>| #[trigger]
                    find_order(final(self).orders@, id2) == if id2 == input.order_id@ {
                        Some(final(self).orders@.last().order)
                    } else {
                        find_order(old(self).orders@, id2)
                    })
            },
    {
        let authorized = match &self.relayer {
            Some(rel) => rel.id == caller.id,
            None => false,
        };
        if !authorized {
            return Err(Error::NotAuthorized);
        }
        if self.find_index(&input.order_id).is_some() {
            return Err(Error::DuplicateOrder);
        }
        let ghost pre = self.orders@;
        let order = Order {
            maker: input.maker,
            token_in: input.token_in,
            token_out: input.token_out,
            amount_in: input.amount_in,
            amount_out: 0,
            min_amount_out: input.min_amount_out,
            max_amount_out: input.max_amount_out,
            resolver_assigned: None,
            path: input.path,
            start_time: now + AUCTION_START_BUFFER,
            hash_lock: input.hash_lock,
        };
        let entry = OrderEntry { order_id: input.order_id, order };
        self.orders.push(entry);
        proof {
            assert forall|id2: Seq<u8>| #[trigger]
                find_order(self.orders@, id2) == if id2 == self.orders@.last().order_id@ {
                    Some(self.orders@.last().order)
                } else {
                    find_order(pre, id2)
                } by {
                lemma_find_order_push(pre, self.orders@.last(), id2);
            }
        }
        Ok(())
    }

    /// Settle the auction: only the configured relayer may call, for a
    /// stored order whose start time has passed and which was never
    /// filled before. The clearing price of this very instant is written
    /// into the order together with the winning resolver, and returned so
    /// the caller can size the escrow to it.
    pub fn fill_order(
        &mut self,
        caller: Principal,
        resolver: Principal,
        order_id: &Vec<u8>,
        now: u64,
    ) -> (r: Result<u128, Error>)
        requires
            old(self).wf(),
        ensures
            final(self).wf(),
            final(self).owner == old(self).owner,
            final(self).relayer == old(self).relayer,
            r is Err ==> final(self).orders@ == old(self).orders@,
            old(self).relayer != Some(caller) ==> r == Err::<u128, Error>(Error::NotAuthorized),
            old(self).relayer == Some(caller) ==> match find_order(
                old(self).orders@,
                order_id@,
            ) {
                Option::None => r == Err::<u128, Error>(Error::OrderNotFound),
                Option::Some(o) => match fill_outcome(o, resolver, now as int) {
                    Result::Err(e) => r == Err::<u128, Error>(e),
                    Result::Ok(filled) => {
                        &&& r == Ok::<u128, Error>(filled.amount_out)
                        &&& final(self).orders@.len() == old(self).orders@.len()
                        &&& find_order(final(self).orders@, order_id@) == Some(filled)
                        &&& (forall|id2: Seq<u8>| id2 != order_id@ ==> #[trigger] find_order(
                            final(self).orders@,
                            id2,
                        ) == find_order(old(self).orders@, id2))
                    },
                },
            },
    {
        let authorized = match &self.relayer {
            Some(rel) => rel.id == caller.id,
            None => false,
        };
        if !authorized {
            return Err(Error::NotAuthorized);
        }
        let i = match self.find_index(order_id) {
            Some(i) => i,
            None => {
                return Err(Error::OrderNotFound);
            },
        };
        if now < self.orders[i].order.start_time {
            return Err(Error::AuctionNotStarted);
        }
        if self.orders[i].order.resolver_assigned.is_some() {
            return Err(Error::AlreadyFilled);
        }
        let ghost pre = self.orders@;
        let o = &self.orders[i].order;
        let cleared = price(o, now);
        proof {
            crate::pricing::lemma_price_bounds(
                o.min_amount_out as int,
                o.max_amount_out as int,
                o.start_time as int,
                o.start_time + AUCTION_DURATION,
                now as int,
            );
        }
        let mut entry = self.orders.remove(i);
        entry.order.amount_out = cleared;
        entry.order.resolver_assigned = Some(resolver);
        self.orders.insert(i, entry);
        proof {
            let post = self.orders@;
            assert(post =~= pre.update(i as int, post[i as int]));
            assert(post[i as int].order == fill_outcome(pre[i as int].order, resolver, now as int).unwrap());
            lemma_find_order_index(post, order_id@, i as int);
            assert forall|id2: Seq<u8>| id2 != order_id@ implies #[trigger] find_order(post, id2)
                == find_order(pre, id2) by {
                lemma_find_order_update(pre, i as int, post[i as int], id2);
            }
        }
        Ok(cleared)
    }

    /// Quote an order: the current decayed price while the auction runs,
    /// or the locked price once the order is filled. Read-only; quoting
    /// before the start time is allowed and returns the maximum.
    pub fn get_amount_out(&self, order_id: &Vec<u8>, now: u64) -> (r: Result<u128, Error>)
        requires
            self.wf(),
        ensures
            match find_order(self.orders@, order_id@) {
                Option::None => r == Err::<u128, Error>(Error::OrderNotFound),
                Option::Some(o) => if o.resolver_assigned is Some {
                    r == Ok::<u128, Error>(o.amount_out)
                } else {
                    r == Ok::<u128, Error>(order_price_at(o, now as int) as u128)
                },
            },
    {
        let i = match self.find_index(order_id) {
            Some(i) => i,
            None => {
                return Err(Error::OrderNotFound);
            },
        };
        let o = &self.orders[i].order;
        if o.resolver_assigned.is_some() {
            return Ok(o.amount_out);
        }
        proof {
            crate::pricing::lemma_price_bounds(
                o.min_amount_out as int,
                o.max_amount_out as int,
                o.start_time as int,
                o.start_time + AUCTION_DURATION,
                now as int,
            );
        }
        Ok(price(o, now))
    }

    /// Look an order up by its identifier.
    pub fn get_order_by_id(&self, order_id: &Vec<u8>) -> (r: Result<&Order, Error>)
        ensures
            match r {
                Result::Ok(o) => find_order(self.orders@, order_id@) == Some(*o),
                Result::Err(e) => e == Error::OrderNotFound && find_order(
                    self.orders@,
                    order_id@,
                ) is None,
            },
    {
        match self.find_index(order_id) {
            Some(i) => Ok(&self.orders[i].order),
            None => Err(Error::OrderNotFound),
        }
    }

    /// Look an order's hash lock up by the order identifier.
    pub fn get_hash_lock_by_order_id(&self, order_id: &Vec<u8>) -> (r: Result<&Vec<u8>, Error>)
        ensures
            match r {
                Result::Ok(h) => find_order(self.orders@, order_id@) is Some && h@ == find_order(
                    self.orders@,
                    order_id@,
                ).unwrap().hash_lock@,
                Result::Err(e) => e == Error::OrderNotFound && find_order(
                    self.orders@,
                    order_id@,
                ) is None,
            },
    {
        match self.find_index(order_id) {
            Some(i) => Ok(&self.orders[i].order.hash_lock),
            None => Err(Error::OrderNotFound),
        }
    }
}

/// The stored order a `start_auction` call builds from its input at
/// instant `now`: all fields carried over, the price unsettled, and the
/// start time one buffer after `now`.
pub open spec fn opened_order_matches(o: Order, input: OrderInput, now: int) -> bool {
    &&& o.maker == input.maker
    &&& o.token_in@ == input.token_in@
    &&& o.token_out@ == input.token_out@
    &&& o.amount_in == input.amount_in
    &&& o.amount_out == 0
    &&& o.min_amount_out == input.min_amount_out
    &&& o.max_amount_out == input.max_amount_out
    &&& o.resolver_assigned is None
    &&& o.path == input.path
    &&& o.start_time == now + AUCTION_START_BUFFER
    &&& o.hash_lock@ == input.hash_lock@
}

} // verus!
