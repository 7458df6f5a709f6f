//! The swap coordinator: the one in-process composition of order book,
//! resolver registry and escrow factory. It drives the whole lifecycle —
//! placing an order, settling its auction and deploying the source-leg
//! escrow in one atomic step, deploying the destination leg, and routing
//! the timelocked release operations — and every entry point either
//! commits its whole effect or fails with nothing changed.

use vstd::prelude::*;
use crate::escrow::{
    cancel_outcome, public_cancel_outcome, public_withdraw_outcome, withdraw_outcome, Leg,
    Settlement, Timelocks,
};
use crate::factory::{find_escrow, lemma_find_escrow_found, EscrowFactory};
use crate::orderbook::{
    fill_outcome, find_order, lemma_find_order_is_stored, DutchAuction, OrderEntry, OrderInput,
};
use crate::pricing::{AUCTION_DURATION, AUCTION_START_BUFFER};
use crate::registry::{Relayer, SignalSecretShare};
use crate::types::{Error, Principal};

verus! {

/// An escrow is backed by the book: the order it references is stored
/// and already filled.
pub open spec fn escrow_backed(orders: Seq<OrderEntry>, e: crate::escrow::Escrow) -> bool {
    &&& find_order(orders, e.order_id@) is Some
    &&& find_order(orders, e.order_id@).unwrap().resolver_assigned is Some
}

/// The protocol composed: the order book, the registry, the factory, and
/// the principal under which the coordinator acts as the book's relayer.
pub struct SwapCoordinator {
    pub relayer_id: Principal,
    pub auction: DutchAuction,
    pub registry: Relayer,
    pub factory: EscrowFactory,
}

impl SwapCoordinator {
    /// Every component is valid, the book trusts exactly the
    /// coordinator's relayer principal, and every deployed escrow is
    /// backed by a stored, filled order.
    pub open spec fn wf(self) -> bool {
        &&& self.auction.wf()
        &&& self.registry.wf()
        &&& self.factory.wf()
        &&& self.auction.relayer == Some(self.relayer_id)
        &&& forall|i: int|
            0 <= i < self.factory.escrows@.len() ==> escrow_backed(
                self.auction.orders@,
                #[trigger] self.factory.escrows@[i],
            )
    }

    /// Compose a fresh protocol instance: `owner` gates the registry and
    /// the book, `relayer_id` is the principal the coordinator acts
    /// under, and the factory takes its deposit requirement and window
    /// offsets as explicit configuration.
    pub fn new(
        owner: Principal,
        relayer_id: Principal,
        required_deposit: u128,
        src_timelocks: Timelocks,
        dest_timelocks: Timelocks,
    ) -> (r: SwapCoordinator)
        requires
            src_timelocks.wf(),
            src_timelocks.leg is Source,
            dest_timelocks.wf(),
            dest_timelocks.leg is Dest,
        ensures
            r.wf(),
            r.relayer_id == relayer_id,
            r.auction.owner == owner,
            r.registry.owner == owner,
            r.auction.orders@.len() == 0,
            r.factory.escrows@.len() == 0,
            r.factory.required_deposit == required_deposit,
            r.factory.src_timelocks == src_timelocks,
            r.factory.dest_timelocks == dest_timelocks,
            forall|p: Principal| !r.registry.is_whitelisted(p),
    {
        let mut auction = DutchAuction::new(owner);
        let _configured = auction.set_relayer(owner, relayer_id);
        let registry = Relayer::new(owner);
        let factory = EscrowFactory::new(required_deposit, src_timelocks, dest_timelocks);
        SwapCoordinator { relayer_id, auction, registry, factory }
    }

    /// Whitelist a resolver; owner-gated, idempotent.
    pub fn add_resolver(&mut self, caller: Principal, resolver: Principal) -> (r: Result<(), Error>)
        requires
            old(self).wf(),
        ensures
            final(self).wf(),
            final(self).auction == old(self).auction,
            final(self).factory == old(self).factory,
            final(self).relayer_id == old(self).relayer_id,
            final(self).registry.owner == old(self).registry.owner,
            caller != old(self).registry.owner ==> r == Err::<(), Error>(Error::NotAuthorized)
                && final(self).registry.resolvers@ == old(self).registry.resolvers@,
            caller == old(self).registry.owner ==> r == Ok::<(), Error>(()) && (forall|p: Principal|
                final(self).registry.is_whitelisted(p) == (old(self).registry.is_whitelisted(p)
                    || p == resolver)),
    {
        self.registry.add_resolver(caller, resolver)
    }

    /// Remove a resolver; owner-gated, idempotent. The removed principal
    /// immediately loses public-phase rights on every escrow.
    pub fn remove_resolver(&mut self, caller: Principal, resolver: Principal) -> (r: Result<
        (),
        Error,
    >)
        requires
            old(self).wf(),
        ensures
            final(self).wf(),
            final(self).auction == old(self).auction,
            final(self).factory == old(self).factory,
            final(self).relayer_id == old(self).relayer_id,
            final(self).registry.owner == old(self).registry.owner,
            caller != old(self).registry.owner ==> r == Err::<(), Error>(Error::NotAuthorized)
                && final(self).registry.resolvers@ == old(self).registry.resolvers@,
            caller == old(self).registry.owner ==> r == Ok::<(), Error>(()) && (forall|p: Principal|
                final(self).registry.is_whitelisted(p) == (old(self).registry.is_whitelisted(p)
                    && p != resolver)),
    {
        self.registry.remove_resolver(caller, resolver)
    }

    /// Place an order: owner-gated, then opened in the book under the
    /// coordinator's relayer principal. Either the order is stored with
    /// its auction scheduled, or nothing changes.
    pub fn place_order(&mut self, caller: Principal, now: u64, input: OrderInput) -> (r: Result<
        (),
        Error,
    >)
        requires
            old(self).wf(),
            input.min_amount_out <= input.max_amount_out,
            input.max_amount_out * AUCTION_DURATION <= u128::MAX,
            input.hash_lock@.len() == 32,
            now + AUCTION_START_BUFFER + AUCTION_DURATION <= u64::MAX,
        ensures
            final(self).wf(),
            final(self).registry == old(self).registry,
            final(self).factory == old(self).factory,
            final(self).relayer_id == old(self).relayer_id,
            final(self).auction.owner == old(self).auction.owner,
            final(self).auction.relayer == old(self).auction.relayer,
            r is Err ==> final(self).auction.orders@ == old(self).auction.orders@,
            caller != old(self).registry.owner ==> r == Err::<(), Error>(Error::NotAuthorized),
            caller == old(self).registry.owner && find_order(
                old(self).auction.orders@,
                input.order_id@,
            ) is Some ==> r == Err::<(), Error>(Error::DuplicateOrder),
            caller == old(self).registry.owner && find_order(
                old(self).auction.orders@,
                input.order_id@,
            ) is None ==> {
                &&& r == Ok::<(), Error>(())
                &&& final(self).auction.orders@.len() == old(self).auction.orders@.len() + 1
                &&& crate::orderbook::opened_order_matches(
                    final(self).auction.orders@.last().order,
                    input,
                    now as int,
                )
                &&& find_order(final(self).auction.orders@, input.order_id@) == Some(
                    final(self).auction.orders@.last().order,
                )
                &&& (forall|id2: Seq<u8>| id2 != input.order_id@ ==> #[trigger] find_order(
                    final(self).auction.orders@,
                    id2,
                ) == find_order(old(self).auction.orders@, id2))
            },
    {
        if caller.id != self.registry.owner.id {
            return Err(Error::NotAuthorized);
        }
        let relayer_id = self.relayer_id;
        let r = self.auction.start_auction(relayer_id, now, input);
        proof {
            if r is Ok {
                assert forall|i: int| 0 <= i < self.factory.escrows@.len() implies escrow_backed(
                    self.auction.orders@,
                    #[trigger] self.factory.escrows@[i],
                ) by {
                    let id = self.factory.escrows@[i].order_id@;
                    assert(escrow_backed(old(self).auction.orders@, self.factory.escrows@[i]));
                    assert(find_order(self.auction.orders@, id) == if id == input.order_id@ {
                        Some(self.auction.orders@.last().order)
                    } else {
                        find_order(old(self).auction.orders@, id)
                    });
                }
            }
        }
        r
    }

    /// Settle an order's auction and deploy its source-leg escrow in one
    /// atomic step: the resolver must be whitelisted and post the
    /// required deposit, the order must exist, be past its start time
    /// and never have been filled. On success the price of this very
    /// instant is locked into the order, the source escrow holds the
    /// maker's input sized to `amount_in` with the resolver as executive,
    /// and the escrow's address and the locked price are returned. On any
    /// failure, nothing changes.
    pub fn fill_order(
        &mut self,
        resolver: Principal,
        order_id: &Vec<u8>,
        now: u64,
        deposit: u128,
    ) -> (r: Result<(usize, u128), Error>)
        requires
            old(self).wf(),
        ensures
            final(self).wf(),
            final(self).registry == old(self).registry,
            final(self).relayer_id == old(self).relayer_id,
            final(self).auction.owner == old(self).auction.owner,
            final(self).auction.relayer == old(self).auction.relayer,
            final(self).factory.op_config_eq(old(self).factory),
            r is Err ==> final(self).auction.orders@ == old(self).auction.orders@ && final(self).factory.escrows@ == old(self).factory.escrows@,
            !old(self).registry.is_whitelisted(resolver) ==> r == Err::<(usize, u128), Error>(
                Error::NotAuthorizedResolver,
            ),
            old(self).registry.is_whitelisted(resolver) && deposit < old(self).factory.required_deposit ==> r == Err::<(usize, u128), Error>(
                Error::InsufficientDeposit,
            ),
            old(self).registry.is_whitelisted(resolver) && deposit >= old(self).factory.required_deposit ==> match find_order(old(self).auction.orders@, order_id@) {
                Option::None => r == Err::<(usize, u128), Error>(Error::OrderNotFound),
                Option::Some(o) => match fill_outcome(o, resolver, now as int) {
                    Result::Err(e) => r == Err::<(usize, u128), Error>(e),
                    Result::Ok(filled) => {
                        &&& r == Ok::<(usize, u128), Error>(
                            (old(self).factory.escrows@.len() as usize, filled.amount_out),
                        )
                        &&& find_order(final(self).auction.orders@, order_id@) == Some(filled)
                        &&& final(self).auction.orders@.len() == old(self).auction.orders@.len()
                        &&& final(self).factory.escrows@.len() == old(self).factory.escrows@.len() + 1
                        &&& final(self).factory.deployed_escrow(
                            order_id@,
                            filled,
                            resolver,
                            now,
                            deposit,
                            Leg::Source,
                        )
                        &&& final(self).factory.escrows@ == old(self).factory.escrows@.push(
                            final(self).factory.escrows@.last(),
                        )
                        &&& (forall|id2: Seq<u8>| id2 != order_id@ ==> #[trigger] find_order(
                            final(self).auction.orders@,
                            id2,
                        ) == find_order(old(self).auction.orders@, id2))
                    },
                },
            },
    {
        if !self.registry.is_resolver(resolver) {
            return Err(Error::NotAuthorizedResolver);
        }
        if deposit < self.factory.required_deposit {
            return Err(Error::InsufficientDeposit);
        }
        let relayer_id = self.relayer_id;
        let price = match self.auction.fill_order(relayer_id, resolver, order_id, now) {
            Ok(p) => p,
            Err(e) => {
                return Err(e);
            },
        };
        proof {
            // The order was unfilled before this fill, so by the backing
            // invariant no source-leg escrow can exist for it yet.
            if find_escrow(self.factory.escrows@, order_id@, Leg::Source) is Some {
                lemma_find_escrow_found(self.factory.escrows@, order_id@, Leg::Source);
                let i = find_escrow(self.factory.escrows@, order_id@, Leg::Source).unwrap();
                assert(escrow_backed(old(self).auction.orders@, self.factory.escrows@[i]));
                assert(false);
            }
        }
        let order = match self.auction.get_order_by_id(order_id) {
            Ok(o) => o,
            Err(e) => {
                proof {
                    assert(false);
                }
                return Err(e);
            },
        };
        proof {
            let i = lemma_find_order_is_stored(self.auction.orders@, order_id@);
        }
        let idx = match self.factory.deploy_src(order_id, order, resolver, now, deposit) {
            Ok(i) => i,
            Err(e) => {
                proof {
                    assert(false);
                }
                return Err(e);
            },
        };
        proof {
            assert forall|i: int| 0 <= i < self.factory.escrows@.len() implies escrow_backed(
                self.auction.orders@,
                #[trigger] self.factory.escrows@[i],
            ) by {
                if i < old(self).factory.escrows@.len() {
                    let id = self.factory.escrows@[i].order_id@;
                    assert(self.factory.escrows@[i] == old(self).factory.escrows@[i]);
                    assert(escrow_backed(old(self).auction.orders@, self.factory.escrows@[i]));
                    if id != order_id@ {
                        assert(find_order(self.auction.orders@, id) == find_order(
                            old(self).auction.orders@,
                            id,
                        ));
                    }
                }
            }
        }
        Ok((idx, price))
    }

    /// Deploy the destination-leg escrow for a filled order: only the
    /// whitelisted resolver that won the fill may, posting the required
    /// deposit; the escrow holds the resolver's liquidity sized to the
    /// locked `amount_out`, carrying the order's hash lock. Either the
    /// escrow is deployed or nothing changes.
    pub fn deploy_dest(
        &mut self,
        resolver: Principal,
        order_id: &Vec<u8>,
        now: u64,
        deposit: u128,
    ) -> (r: Result<usize, Error>)
        requires
            old(self).wf(),
        ensures
            final(self).wf(),
            final(self).registry == old(self).registry,
            final(self).relayer_id == old(self).relayer_id,
            final(self).auction == old(self).auction,
            final(self).factory.op_config_eq(old(self).factory),
            r is Err ==> final(self).factory.escrows@ == old(self).factory.escrows@,
            !old(self).registry.is_whitelisted(resolver) ==> r == Err::<usize, Error>(
                Error::NotAuthorizedResolver,
            ),
            old(self).registry.is_whitelisted(resolver) && deposit < old(self).factory.required_deposit ==> r == Err::<usize, Error>(Error::InsufficientDeposit),
            old(self).registry.is_whitelisted(resolver) && deposit >= old(self).factory.required_deposit ==> match find_order(old(self).auction.orders@, order_id@) {
                Option::None => r == Err::<usize, Error>(Error::OrderNotFound),
                Option::Some(o) => if o.resolver_assigned != Some(resolver) {
                    r == Err::<usize, Error>(Error::NotExecutiveResolver)
                } else if find_escrow(old(self).factory.escrows@, order_id@, Leg::Dest) is Some {
                    r == Err::<usize, Error>(Error::DuplicateOrder)
                } else {
                    &&& r == Ok::<usize, Error>(old(self).factory.escrows@.len() as usize)
                    &&& final(self).factory.escrows@.len() == old(self).factory.escrows@.len() + 1
                    &&& final(self).factory.deployed_escrow(
                        order_id@,
                        o,
                        resolver,
                        now,
                        deposit,
                        Leg::Dest,
                    )
                    &&& final(self).factory.escrows@ == old(self).factory.escrows@.push(
                        final(self).factory.escrows@.last(),
                    )
                },
            },
    {
        if !self.registry.is_resolver(resolver) {
            return Err(Error::NotAuthorizedResolver);
        }
        if deposit < self.factory.required_deposit {
            return Err(Error::InsufficientDeposit);
        }
        let order = match self.auction.get_order_by_id(order_id) {
            Ok(o) => o,
            Err(e) => {
                return Err(e);
            },
        };
        let assigned = match &order.resolver_assigned {
            Some(a) => a.id == resolver.id,
            None => false,
        };
        if !assigned {
            return Err(Error::NotExecutiveResolver);
        }
        proof {
            let i = lemma_find_order_is_stored(self.auction.orders@, order_id@);
        }
        let r = self.factory.deploy_dest(order_id, order, resolver, now, deposit);
        proof {
            if r is Ok {
                assert forall|i: int| 0 <= i < self.factory.escrows@.len() implies escrow_backed(
                    self.auction.orders@,
                    #[trigger] self.factory.escrows@[i],
                ) by {
                    if i < old(self).factory.escrows@.len() {
                        assert(self.factory.escrows@[i] == old(self).factory.escrows@[i]);
                        assert(escrow_backed(
                            old(self).auction.orders@,
                            self.factory.escrows@[i],
                        ));
                    }
                }
            }
        }
        r
    }

    /// Executive withdrawal on the addressed escrow, with the revealed
    /// secret.
    pub fn withdraw(&mut self, escrow: usize, now: u64, caller: Principal, secret: &Vec<u8>) -> (r:
        Result<Settlement, Error>)
        requires
            old(self).wf(),
        ensures
            final(self).wf(),
            final(self).registry == old(self).registry,
            final(self).auction == old(self).auction,
            final(self).relayer_id == old(self).relayer_id,
            escrow >= old(self).factory.escrows@.len() ==> r == Err::<Settlement, Error>(
                Error::OrderNotFound,
            ) && final(self).factory.escrows@ == old(self).factory.escrows@,
            escrow < old(self).factory.escrows@.len() ==> r == withdraw_outcome(
                old(self).factory.escrows@[escrow as int],
                now as int,
                caller,
                secret@,
            ) && final(self).factory.op_touches_only(old(self).factory, escrow as int, r is Ok),
    {
        let r = self.factory.withdraw(escrow, now, caller, secret);
        proof {
            self.lemma_op_preserves_backing(*old(self), escrow as int);
        }
        r
    }

    /// Public withdrawal on the addressed escrow: any currently
    /// whitelisted resolver, with the revealed secret.
    pub fn public_withdraw(
        &mut self,
        escrow: usize,
        now: u64,
        caller: Principal,
        secret: &Vec<u8>,
    ) -> (r: Result<Settlement, Error>)
        requires
            old(self).wf(),
        ensures
            final(self).wf(),
            final(self).registry == old(self).registry,
            final(self).auction == old(self).auction,
            final(self).relayer_id == old(self).relayer_id,
            escrow >= old(self).factory.escrows@.len() ==> r == Err::<Settlement, Error>(
                Error::OrderNotFound,
            ) && final(self).factory.escrows@ == old(self).factory.escrows@,
            escrow < old(self).factory.escrows@.len() ==> r == public_withdraw_outcome(
                old(self).factory.escrows@[escrow as int],
                now as int,
                caller,
                old(self).registry.is_whitelisted(caller),
                secret@,
            ) && final(self).factory.op_touches_only(old(self).factory, escrow as int, r is Ok),
    {
        let registry = &self.registry;
        let r = self.factory.public_withdraw(escrow, now, caller, registry, secret);
        proof {
            self.lemma_op_preserves_backing(*old(self), escrow as int);
        }
        r
    }

    /// Executive cancellation on the addressed source-leg escrow.
    pub fn cancel(&mut self, escrow: usize, now: u64, caller: Principal) -> (r: Result<
        Settlement,
        Error,
    >)
        requires
            old(self).wf(),
            escrow < old(self).factory.escrows@.len() ==> old(self).factory.escrows@[
                escrow as int
            ].timelocks.leg is Source,
        ensures
            final(self).wf(),
            final(self).registry == old(self).registry,
            final(self).auction == old(self).auction,
            final(self).relayer_id == old(self).relayer_id,
            escrow >= old(self).factory.escrows@.len() ==> r == Err::<Settlement, Error>(
                Error::OrderNotFound,
            ) && final(self).factory.escrows@ == old(self).factory.escrows@,
            escrow < old(self).factory.escrows@.len() ==> r == cancel_outcome(
                old(self).factory.escrows@[escrow as int],
                now as int,
                caller,
            ) && final(self).factory.op_touches_only(old(self).factory, escrow as int, r is Ok),
    {
        let r = self.factory.cancel(escrow, now, caller);
        proof {
            self.lemma_op_preserves_backing(*old(self), escrow as int);
        }
        r
    }

    /// Public cancellation on the addressed escrow: any currently
    /// whitelisted resolver, once the leg's public-cancel offset has
    /// passed.
    pub fn public_cancel(&mut self, escrow: usize, now: u64, caller: Principal) -> (r: Result<
        Settlement,
        Error,
    >)
        requires
            old(self).wf(),
        ensures
            final(self).wf(),
            final(self).registry == old(self).registry,
            final(self).auction == old(self).auction,
            final(self).relayer_id == old(self).relayer_id,
            escrow >= old(self).factory.escrows@.len() ==> r == Err::<Settlement, Error>(
                Error::OrderNotFound,
            ) && final(self).factory.escrows@ == old(self).factory.escrows@,
            escrow < old(self).factory.escrows@.len() ==> r == public_cancel_outcome(
                old(self).factory.escrows@[escrow as int],
                now as int,
                caller,
                old(self).registry.is_whitelisted(caller),
            ) && final(self).factory.op_touches_only(old(self).factory, escrow as int, r is Ok),
    {
        let registry = &self.registry;
        let r = self.factory.public_cancel(escrow, now, caller, registry);
        proof {
            self.lemma_op_preserves_backing(*old(self), escrow as int);
        }
        r
    }

    /// Broadcast the escrow-pair coordination record; resolver-gated,
    /// with no state change.
    pub fn signal_share_secret(
        &self,
        caller: Principal,
        escrow_src: Vec<u8>,
        escrow_dest: Vec<u8>,
        order_id: Vec<u8>,
    ) -> (r: Result<SignalSecretShare, Error>)
        ensures
            !self.registry.is_whitelisted(caller) ==> r == Err::<SignalSecretShare, Error>(
                Error::NotAuthorizedResolver,
            ),
            self.registry.is_whitelisted(caller) ==> r is Ok && r.unwrap().escrow_src@
                == escrow_src@ && r.unwrap().escrow_dest@ == escrow_dest@ && r.unwrap().order_id@
                == order_id@ && r.unwrap().resolver == caller,
    {
        self.registry.signal_share_secret(caller, escrow_src, escrow_dest, order_id)
    }

    /// A release operation touches only one escrow's settled flag, so
    /// the backing invariant survives it.
    proof fn lemma_op_preserves_backing(&self, pre: SwapCoordinator, idx: int)
        requires
            pre.wf(),
            self.auction == pre.auction,
            self.factory.escrows@ == pre.factory.escrows@ || (0 <= idx
                < pre.factory.escrows@.len() && self.factory.escrows@.len()
                == pre.factory.escrows@.len() && crate::escrow::frozen_fields_eq(
                pre.factory.escrows@[idx],
                self.factory.escrows@[idx],
            ) && (forall|j: int|
                0 <= j < pre.factory.escrows@.len() && j != idx
                    ==> self.factory.escrows@[j] == pre.factory.escrows@[j])),
        ensures
            forall|i: int|
                0 <= i < self.factory.escrows@.len() ==> escrow_backed(
                    self.auction.orders@,
                    #[trigger] self.factory.escrows@[i],
                ),
    {
        assert forall|i: int| 0 <= i < self.factory.escrows@.len() implies escrow_backed(
            self.auction.orders@,
            #[trigger] self.factory.escrows@[i],
        ) by {
            assert(escrow_backed(pre.auction.orders@, pre.factory.escrows@[i]));
            assert(self.factory.escrows@[i].order_id@ == pre.factory.escrows@[i].order_id@);
        }
    }
}

} // verus!
