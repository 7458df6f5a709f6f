//! The escrow factory: it instantiates one escrow per order per chain
//! leg, checks the resolver's security deposit, keeps the order-to-escrow
//! back-references, and routes the timelocked operations to the stored
//! instances. An escrow's address, in this in-process composition, is its
//! index in the factory's store.

use vstd::prelude::*;
use crate::escrow::{
    cancel_outcome, frozen_fields_eq, public_cancel_outcome, public_withdraw_outcome,
    withdraw_outcome, Escrow, Leg, Settlement, Timelocks,
};
use crate::orderbook::{order_wf, Order};
use crate::registry::Relayer;
use crate::types::{bytes_clone, bytes_eq, Error, Principal};

verus! {

/// The index of the first stored escrow serving `id` on `leg`, if any.
pub open spec fn find_escrow(s: Seq<Escrow>, id: Seq<u8>, leg: Leg) -> Option<int>
    decreases s.len(),
{
    if s.len() == 0 {
        None
    } else if s[0].order_id@ == id && s[0].timelocks.leg == leg {
        Some(0int)
    } else {
        match find_escrow(s.drop_first(), id, leg) {
            None => None,
            Some(i) => Some(i + 1),
        }
    }
}

/// If no stored escrow serves `id` on `leg`, the lookup misses.
proof fn lemma_find_escrow_none(s: Seq<Escrow>, id: Seq<u8>, leg: Leg)
    requires
        forall|j: int|
            0 <= j < s.len() ==> !(s[j].order_id@ == id && #[trigger] s[j].timelocks.leg == leg),
    ensures
        find_escrow(s, id, leg) is None,
    decreases s.len(),
{
    if s.len() > 0 {
        lemma_find_escrow_none(s.drop_first(), id, leg);
    }
}

/// If `i` is the first index serving `id` on `leg`, the lookup returns it.
proof fn lemma_find_escrow_index(s: Seq<Escrow>, id: Seq<u8>, leg: Leg, i: int)
    requires
        0 <= i < s.len(),
        s[i].order_id@ == id,
        s[i].timelocks.leg == leg,
        forall|j: int|
            0 <= j < i ==> !(s[j].order_id@ == id && #[trigger] s[j].timelocks.leg == leg),
    ensures
        find_escrow(s, id, leg) == Some(i),
    decreases i,
{
    if i > 0 {
        lemma_find_escrow_index(s.drop_first(), id, leg, i - 1);
    }
}

/// A successful lookup points at a stored escrow that serves the key.
pub proof fn lemma_find_escrow_found(s: Seq<Escrow>, id: Seq<u8>, leg: Leg)
    requires
        find_escrow(s, id, leg) is Some,
    ensures
        0 <= find_escrow(s, id, leg).unwrap() < s.len(),
        s[find_escrow(s, id, leg).unwrap()].order_id@ == id,
        s[find_escrow(s, id, leg).unwrap()].timelocks.leg == leg,
    decreases s.len(),
{
    if !(s[0].order_id@ == id && s[0].timelocks.leg == leg) {
        lemma_find_escrow_found(s.drop_first(), id, leg);
    }
}

/// Appending an escrow cannot displace an existing match, and fills a
/// miss exactly when the new escrow serves the key.
proof fn lemma_find_escrow_push(s: Seq<Escrow>, e: Escrow, id: Seq<u8>, leg: Leg)
    ensures
        find_escrow(s, id, leg) is Some ==> find_escrow(s.push(e), id, leg) == find_escrow(
            s,
            id,
            leg,
        ),
        find_escrow(s, id, leg) is None && e.order_id@ == id && e.timelocks.leg == leg
            ==> find_escrow(s.push(e), id, leg) == Some(s.len() as int),
        find_escrow(s, id, leg) is None && !(e.order_id@ == id && e.timelocks.leg == leg)
            ==> find_escrow(s.push(e), id, leg) is None,
    decreases s.len(),
{
    if s.len() == 0 {
        assert(s.push(e).drop_first() =~= s);
    } else {
        assert(s.push(e).drop_first() =~= s.drop_first().push(e));
        lemma_find_escrow_push(s.drop_first(), e, id, leg);
    }
}

/// The configuration and store of escrow instances.
pub struct EscrowFactory {
    /// The native-asset collateral a resolver must post per escrow.
    pub required_deposit: u128,
    /// The window offsets given to source-leg escrows.
    pub src_timelocks: Timelocks,
    /// The window offsets given to destination-leg escrows.
    pub dest_timelocks: Timelocks,
    /// The deployed escrow instances, addressed by index.
    pub escrows: Vec<Escrow>,
}

impl EscrowFactory {
    /// The two configured parameter sets are valid and aimed at their
    /// legs, and every stored escrow is valid.
    pub open spec fn wf(self) -> bool {
        &&& self.src_timelocks.wf()
        &&& self.src_timelocks.leg is Source
        &&& self.dest_timelocks.wf()
        &&& self.dest_timelocks.leg is Dest
        &&& forall|i: int| 0 <= i < self.escrows@.len() ==> (#[trigger] self.escrows@[i]).wf()
    }

    /// A factory with explicit configuration and no escrows yet.
    pub fn new(required_deposit: u128, src_timelocks: Timelocks, dest_timelocks: Timelocks) -> (r:
        EscrowFactory)
        requires
            src_timelocks.wf(),
            src_timelocks.leg is Source,
            dest_timelocks.wf(),
            dest_timelocks.leg is Dest,
        ensures
            r.wf(),
            r.required_deposit == required_deposit,
            r.src_timelocks == src_timelocks,
            r.dest_timelocks == dest_timelocks,
            r.escrows@.len() == 0,
    {
        EscrowFactory { required_deposit, src_timelocks, dest_timelocks, escrows: Vec::new() }
    }

    /// The stored escrow a deployment appends for `order` on `leg`: all
    /// parameters frozen from the order and the call, balances intact.
    pub open spec fn deployed_escrow(
        self,
        order_id: Seq<u8>,
        order: Order,
        resolver: Principal,
        now: u64,
        deposit: u128,
        leg: Leg,
    ) -> bool {
        let e = self.escrows@.last();
        &&& e.order_id@ == order_id
        &&& e.hash_lock@ == order.hash_lock@
        &&& e.deployed_at == now
        &&& e.timelocks == if leg is Source {
            self.src_timelocks
        } else {
            self.dest_timelocks
        }
        &&& e.maker == order.maker
        &&& e.executive_resolver == resolver
        &&& e.asset@ == if leg is Source {
            order.token_in@
        } else {
            order.token_out@
        }
        &&& e.amount == if leg is Source {
            order.amount_in
        } else {
            order.amount_out
        }
        &&& e.security_deposit == deposit
        &&& !e.settled
    }

    /// The first stored escrow serving `order_id` on `leg`.
    fn find_index(&self, order_id: &Vec<u8>, leg: Leg) -> (r: Option<usize>)
        ensures
            match r {
                Some(i) => find_escrow(self.escrows@, order_id@, leg) == Some(i as int),
                None => find_escrow(self.escrows@, order_id@, leg) is None,
            },
    {
        let mut i: usize = 0;
        while i < self.escrows.len()
            invariant
                i <= self.escrows@.len(),
                forall|j: int|
                    0 <= j < i ==> !(self.escrows@[j].order_id@ == order_id@
                        && (#[trigger] self.escrows@[j].timelocks.leg) == leg),
            decreases self.escrows@.len() - i,
        {
            if self.escrows[i].timelocks.leg == leg && bytes_eq(&self.escrows[i].order_id, order_id)
            {
                proof {
                    lemma_find_escrow_index(self.escrows@, order_id@, leg, i as int);
                }
                return Some(i);
            }
            i += 1;
        }
        proof {
            lemma_find_escrow_none(self.escrows@, order_id@, leg);
        }
        None
    }

    /// Deploy an escrow for `order` on `leg`: the deposit must meet the
    /// configured requirement and the (order, leg) pair must not already
    /// have an instance. On success the new escrow's address (its index)
    /// is returned.
    fn deploy(
        &mut self,
        order_id: &Vec<u8>,
        order: &Order,
        resolver: Principal,
        now: u64,
        deposit: u128,
        leg: Leg,
    ) -> (r: Result<usize, Error>)
        requires
            old(self).wf(),
            order_wf(*order),
        ensures
            final(self).wf(),
            final(self).required_deposit == old(self).required_deposit,
            final(self).src_timelocks == old(self).src_timelocks,
            final(self).dest_timelocks == old(self).dest_timelocks,
            deposit < old(self).required_deposit ==> r == Err::<usize, Error>(
                Error::InsufficientDeposit,
            ) && final(self).escrows@ == old(self).escrows@,
            deposit >= old(self).required_deposit && find_escrow(
                old(self).escrows@,
                order_id@,
                leg,
            ) is Some ==> r == Err::<usize, Error>(Error::DuplicateOrder) && final(self).escrows@
                == old(self).escrows@,
            deposit >= old(self).required_deposit && find_escrow(
                old(self).escrows@,
                order_id@,
                leg,
            ) is None ==> {
                &&& r == Ok::<usize, Error>(old(self).escrows@.len() as usize)
                &&& final(self).escrows@.len() == old(self).escrows@.len() + 1
                &&& final(self).escrows@ == old(self).escrows@.push(final(self).escrows@.last())
                &&& final(self).deployed_escrow(order_id@, *order, resolver, now, deposit, leg)
                &&& find_escrow(final(self).escrows@, order_id@, leg) == Some(
                    old(self).escrows@.len() as int,
                )
            },
    {
        if deposit < self.required_deposit {
            return Err(Error::InsufficientDeposit);
        }
        if self.find_index(order_id, leg).is_some() {
            return Err(Error::DuplicateOrder);
        }
        let ghost pre = self.escrows@;
        let timelocks = if matches!(leg, Leg::Source) {
            self.src_timelocks
        } else {
            self.dest_timelocks
        };
        let asset = if matches!(leg, Leg::Source) {
            bytes_clone(&order.token_in)
        } else {
            bytes_clone(&order.token_out)
        };
        let amount = if matches!(leg, Leg::Source) {
            order.amount_in
        } else {
            order.amount_out
        };
        let escrow = Escrow {
            order_id: bytes_clone(order_id),
            hash_lock: bytes_clone(&order.hash_lock),
            deployed_at: now,
            timelocks,
            maker: order.maker,
            executive_resolver: resolver,
            asset,
            amount,
            security_deposit: deposit,
            settled: false,
        };
        let idx = self.escrows.len();
        self.escrows.push(escrow);
        proof {
            lemma_find_escrow_push(pre, self.escrows@.last(), order_id@, leg);
        }
        Ok(idx)
    }

    /// Deploy the source-leg escrow for a filled order: it holds the
    /// maker's input asset, sized to `amount_in`, with the filling
    /// resolver as executive.
    pub fn deploy_src(
        &mut self,
        order_id: &Vec<u8>,
        order: &Order,
        resolver: Principal,
        now: u64,
        deposit: u128,
    ) -> (r: Result<usize, Error>)
        requires
            old(self).wf(),
            order_wf(*order),
        ensures
            final(self).wf(),
            final(self).required_deposit == old(self).required_deposit,
            final(self).src_timelocks == old(self).src_timelocks,
            final(self).dest_timelocks == old(self).dest_timelocks,
            deposit < old(self).required_deposit ==> r == Err::<usize, Error>(
                Error::InsufficientDeposit,
            ) && final(self).escrows@ == old(self).escrows@,
            deposit >= old(self).required_deposit && find_escrow(
                old(self).escrows@,
                order_id@,
                Leg::Source,
            ) is Some ==> r == Err::<usize, Error>(Error::DuplicateOrder) && final(self).escrows@
                == old(self).escrows@,
            deposit >= old(self).required_deposit && find_escrow(
                old(self).escrows@,
                order_id@,
                Leg::Source,
            ) is None ==> {
                &&& r == Ok::<usize, Error>(old(self).escrows@.len() as usize)
                &&& final(self).escrows@.len() == old(self).escrows@.len() + 1
                &&& final(self).escrows@ == old(self).escrows@.push(final(self).escrows@.last())
                &&& final(self).deployed_escrow(
                    order_id@,
                    *order,
                    resolver,
                    now,
                    deposit,
                    Leg::Source,
                )
                &&& find_escrow(final(self).escrows@, order_id@, Leg::Source) == Some(
                    old(self).escrows@.len() as int,
                )
            },
    {
        self.deploy(order_id, order, resolver, now, deposit, Leg::Source)
    }

    /// Deploy the destination-leg escrow for a filled order: it holds the
    /// resolver's own liquidity in the output asset, sized to the locked
    /// `amount_out`, carrying the same hash lock.
    pub fn deploy_dest(
        &mut self,
        order_id: &Vec<u8>,
        order: &Order,
        resolver: Principal,
        now: u64,
        deposit: u128,
    ) -> (r: Result<usize, Error>)
        requires
            old(self).wf(),
            order_wf(*order),
        ensures
            final(self).wf(),
            final(self).required_deposit == old(self).required_deposit,
            final(self).src_timelocks == old(self).src_timelocks,
            final(self).dest_timelocks == old(self).dest_timelocks,
            deposit < old(self).required_deposit ==> r == Err::<usize, Error>(
                Error::InsufficientDeposit,
            ) && final(self).escrows@ == old(self).escrows@,
            deposit >= old(self).required_deposit && find_escrow(
                old(self).escrows@,
                order_id@,
                Leg::Dest,
            ) is Some ==> r == Err::<usize, Error>(Error::DuplicateOrder) && final(self).escrows@
                == old(self).escrows@,
            deposit >= old(self).required_deposit && find_escrow(
                old(self).escrows@,
                order_id@,
                Leg::Dest,
            ) is None ==> {
                &&& r == Ok::<usize, Error>(old(self).escrows@.len() as usize)
                &&& final(self).escrows@.len() == old(self).escrows@.len() + 1
                &&& final(self).escrows@ == old(self).escrows@.push(final(self).escrows@.last())
                &&& final(self).deployed_escrow(
                    order_id@,
                    *order,
                    resolver,
                    now,
                    deposit,
                    Leg::Dest,
                )
                &&& find_escrow(final(self).escrows@, order_id@, Leg::Dest) == Some(
                    old(self).escrows@.len() as int,
                )
            },
    {
        self.deploy(order_id, order, resolver, now, deposit, Leg::Dest)
    }

    /// The address (index) of the escrow serving `order_id` on `leg`.
    pub fn get_escrow_from_orderid(&self, order_id: &Vec<u8>, leg: Leg) -> (r: Result<usize, Error>)
        ensures
            match r {
                Result::Ok(i) => find_escrow(self.escrows@, order_id@, leg) == Some(i as int),
                Result::Err(e) => e == Error::OrderNotFound && find_escrow(
                    self.escrows@,
                    order_id@,
                    leg,
                ) is None,
            },
    {
        match self.find_index(order_id, leg) {
            Some(i) => Ok(i),
            None => Err(Error::OrderNotFound),
        }
    }

    /// The order identifier an escrow address serves.
    pub fn get_orderid_from_escrow(&self, escrow: usize) -> (r: Result<&Vec<u8>, Error>)
        ensures
            match r {
                Result::Ok(id) => escrow < self.escrows@.len() && id@ == self.escrows@[
                    escrow as int
                ].order_id@,
                Result::Err(e) => e == Error::OrderNotFound && escrow >= self.escrows@.len(),
            },
    {
        if escrow < self.escrows.len() {
            Ok(&self.escrows[escrow].order_id)
        } else {
            Err(Error::OrderNotFound)
        }
    }

    /// Read an escrow instance by its address.
    pub fn get_escrow(&self, escrow: usize) -> (r: Result<&Escrow, Error>)
        ensures
            match r {
                Result::Ok(e) => escrow < self.escrows@.len() && *e == self.escrows@[escrow as int],
                Result::Err(err) => err == Error::OrderNotFound && escrow >= self.escrows@.len(),
            },
    {
        if escrow < self.escrows.len() {
            Ok(&self.escrows[escrow])
        } else {
            Err(Error::OrderNotFound)
        }
    }

    /// Besides the addressed escrow — whose frozen fields survive and
    /// which becomes settled exactly when the operation succeeds — the
    /// store is untouched.
    pub open spec fn op_touches_only(self, pre: EscrowFactory, idx: int, ok: bool) -> bool {
        &&& self.escrows@.len() == pre.escrows@.len()
        &&& frozen_fields_eq(pre.escrows@[idx], self.escrows@[idx])
        &&& self.escrows@[idx].settled == (pre.escrows@[idx].settled || ok)
        &&& forall|j: int|
            0 <= j < pre.escrows@.len() && j != idx ==> self.escrows@[j] == pre.escrows@[j]
        &&& self.required_deposit == pre.required_deposit
        &&& self.src_timelocks == pre.src_timelocks
        &&& self.dest_timelocks == pre.dest_timelocks
    }

    /// Executive withdrawal on the addressed escrow.
    pub fn withdraw(&mut self, escrow: usize, now: u64, caller: Principal, secret: &Vec<u8>) -> (r:
        Result<Settlement, Error>)
        requires
            old(self).wf(),
        ensures
            final(self).wf(),
            escrow >= old(self).escrows@.len() ==> r == Err::<Settlement, Error>(
                Error::OrderNotFound,
            ) && final(self).escrows@ == old(self).escrows@ && final(self).op_config_eq(
                *old(self),
            ),
            escrow < old(self).escrows@.len() ==> r == withdraw_outcome(
                old(self).escrows@[escrow as int],
                now as int,
                caller,
                secret@,
            ) && final(self).op_touches_only(*old(self), escrow as int, r is Ok),
    {
        if escrow >= self.escrows.len() {
            return Err(Error::OrderNotFound);
        }
        let ghost pre = self.escrows@;
        let mut e = self.escrows.remove(escrow);
        let r = e.withdraw(now, caller, secret);
        self.escrows.insert(escrow, e);
        proof {
            assert(forall|j: int|
                0 <= j < pre.len() && j != escrow ==> self.escrows@[j] == pre[j]);
        }
        r
    }

    /// Public withdrawal on the addressed escrow, gated by the registry.
    pub fn public_withdraw(
        &mut self,
        escrow: usize,
        now: u64,
        caller: Principal,
        registry: &Relayer,
        secret: &Vec<u8>,
    ) -> (r: Result<Settlement, Error>)
        requires
            old(self).wf(),
        ensures
            final(self).wf(),
            escrow >= old(self).escrows@.len() ==> r == Err::<Settlement, Error>(
                Error::OrderNotFound,
            ) && final(self).escrows@ == old(self).escrows@ && final(self).op_config_eq(
                *old(self),
            ),
            escrow < old(self).escrows@.len() ==> r == public_withdraw_outcome(
                old(self).escrows@[escrow as int],
                now as int,
                caller,
                registry.is_whitelisted(caller),
                secret@,
            ) && final(self).op_touches_only(*old(self), escrow as int, r is Ok),
    {
        if escrow >= self.escrows.len() {
            return Err(Error::OrderNotFound);
        }
        let ghost pre = self.escrows@;
        let mut e = self.escrows.remove(escrow);
        let r = e.public_withdraw(now, caller, registry, secret);
        self.escrows.insert(escrow, e);
        proof {
            assert(forall|j: int|
                0 <= j < pre.len() && j != escrow ==> self.escrows@[j] == pre[j]);
        }
        r
    }

    /// Executive cancellation on the addressed escrow; the source leg
    /// alone has this phase.
    pub fn cancel(&mut self, escrow: usize, now: u64, caller: Principal) -> (r: Result<
        Settlement,
        Error,
    >)
        requires
            old(self).wf(),
            escrow < old(self).escrows@.len() ==> old(self).escrows@[
                escrow as int
            ].timelocks.leg is Source,
        ensures
            final(self).wf(),
            escrow >= old(self).escrows@.len() ==> r == Err::<Settlement, Error>(
                Error::OrderNotFound,
            ) && final(self).escrows@ == old(self).escrows@ && final(self).op_config_eq(
                *old(self),
            ),
            escrow < old(self).escrows@.len() ==> r == cancel_outcome(
                old(self).escrows@[escrow as int],
                now as int,
                caller,
            ) && final(self).op_touches_only(*old(self), escrow as int, r is Ok),
    {
        if escrow >= self.escrows.len() {
            return Err(Error::OrderNotFound);
        }
        let ghost pre = self.escrows@;
        let mut e = self.escrows.remove(escrow);
        let r = e.cancel(now, caller);
        self.escrows.insert(escrow, e);
        proof {
            assert(forall|j: int|
                0 <= j < pre.len() && j != escrow ==> self.escrows@[j] == pre[j]);
        }
        r
    }

    /// Public cancellation on the addressed escrow, gated by the
    /// registry.
    pub fn public_cancel(
        &mut self,
        escrow: usize,
        now: u64,
        caller: Principal,
        registry: &Relayer,
    ) -> (r: Result<Settlement, Error>)
        requires
            old(self).wf(),
        ensures
            final(self).wf(),
            escrow >= old(self).escrows@.len() ==> r == Err::<Settlement, Error>(
                Error::OrderNotFound,
            ) && final(self).escrows@ == old(self).escrows@ && final(self).op_config_eq(
                *old(self),
            ),
            escrow < old(self).escrows@.len() ==> r == public_cancel_outcome(
                old(self).escrows@[escrow as int],
                now as int,
                caller,
                registry.is_whitelisted(caller),
            ) && final(self).op_touches_only(*old(self), escrow as int, r is Ok),
    {
        if escrow >= self.escrows.len() {
            return Err(Error::OrderNotFound);
        }
        let ghost pre = self.escrows@;
        let mut e = self.escrows.remove(escrow);
        let r = e.public_cancel(now, caller, registry);
        self.escrows.insert(escrow, e);
        proof {
            assert(forall|j: int|
                0 <= j < pre.len() && j != escrow ==> self.escrows@[j] == pre[j]);
        }
        r
    }

    /// The factory's configuration fields agree with `pre`'s.
    pub open spec fn op_config_eq(self, pre: EscrowFactory) -> bool {
        &&& self.required_deposit == pre.required_deposit
        &&& self.src_timelocks == pre.src_timelocks
        &&& self.dest_timelocks == pre.dest_timelocks
    }
}

} // verus!
