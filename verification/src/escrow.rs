//! The escrow timelock state machine: one shape, instantiated once per
//! order per chain leg. There is no stored state tag — the applicable
//! phase is computed from the elapsed time since deployment, which rules
//! out any state/timestamp desync. As time advances, the right to release
//! the escrowed funds widens from nobody, to the escrow's executive
//! resolver, to any whitelisted resolver, and finally to cancellation.

use vstd::prelude::*;
use crate::registry::Relayer;
use crate::secret::{keccak256_of, verify};
use crate::types::{Error, Principal};

verus! {

/// Which chain leg of the swap an escrow serves. The source leg holds the
/// maker's input asset; the destination leg holds the resolver's output
/// liquidity.
#[derive(Clone, Copy, Debug, PartialEq, Eq, Structural)]
pub enum Leg {
    Source,
    Dest,
}

/// The authorization phase an escrow is in at some instant.
#[derive(Clone, Copy, Debug, PartialEq, Eq, Structural)]
pub enum Phase {
    /// Finality window: nobody may withdraw or cancel.
    Locked,
    /// Only the executive resolver may withdraw, with the secret.
    ExecutiveWithdraw,
    /// Any whitelisted resolver may withdraw, with the secret.
    PublicWithdraw,
    /// Source leg only: the executive resolver may cancel.
    ExecutiveCancel,
    /// Any whitelisted resolver may cancel.
    PublicCancel,
}

/// The tiered time offsets of an escrow, measured in seconds from its
/// deployment instant. The source leg has four windows; the destination
/// leg has three — it has no executive-cancel phase, so `t4` is unused
/// there and pinned to `t3`.
#[derive(Clone, Copy, Debug, PartialEq, Eq, Structural)]
pub struct Timelocks {
    pub leg: Leg,
    pub t1: u64,
    pub t2: u64,
    pub t3: u64,
    pub t4: u64,
}

/// Reference offsets of a source-leg escrow: finality until 120 s,
/// executive withdrawal until 360 s, public withdrawal until 600 s,
/// executive cancellation until 720 s, public cancellation after.
pub const SRC_FINALITY_LOCK: u64 = 120;
pub const SRC_RESOLVER_UNLOCK: u64 = 360;
pub const SRC_ANYONE_UNLOCK: u64 = 600;
pub const SRC_RESOLVER_CANCEL: u64 = 720;

/// Reference offsets of a destination-leg escrow: finality until 120 s,
/// executive withdrawal until 240 s, public withdrawal until 360 s,
/// public cancellation after.
pub const DEST_FINALITY_LOCK: u64 = 120;
pub const DEST_RESOLVER_UNLOCK: u64 = 240;
pub const DEST_ANYONE_UNLOCK: u64 = 360;

impl Timelocks {
    /// The offsets are strictly increasing, and the destination leg pins
    /// the unused fourth offset to the third.
    pub open spec fn wf(self) -> bool {
        &&& self.t1 < self.t2 < self.t3
        &&& if self.leg is Source {
            self.t3 < self.t4
        } else {
            self.t4 == self.t3
        }
    }

    /// Timelocks from explicit offsets.
    pub fn new(leg: Leg, t1: u64, t2: u64, t3: u64, t4: u64) -> (r: Timelocks)
        requires
            t1 < t2 < t3,
            leg is Source ==> t3 < t4,
            leg is Dest ==> t4 == t3,
        ensures
            r == (Timelocks { leg, t1, t2, t3, t4 }),
            r.wf(),
    {
        Timelocks { leg, t1, t2, t3, t4 }
    }

    /// The reference source-leg offsets.
    pub fn source_defaults() -> (r: Timelocks)
        ensures
            r == (Timelocks {
                leg: Leg::Source,
                t1: SRC_FINALITY_LOCK,
                t2: SRC_RESOLVER_UNLOCK,
                t3: SRC_ANYONE_UNLOCK,
                t4: SRC_RESOLVER_CANCEL,
            }),
            r.wf(),
    {
        Timelocks {
            leg: Leg::Source,
            t1: SRC_FINALITY_LOCK,
            t2: SRC_RESOLVER_UNLOCK,
            t3: SRC_ANYONE_UNLOCK,
            t4: SRC_RESOLVER_CANCEL,
        }
    }

    /// The reference destination-leg offsets.
    pub fn dest_defaults() -> (r: Timelocks)
        ensures
            r == (Timelocks {
                leg: Leg::Dest,
                t1: DEST_FINALITY_LOCK,
                t2: DEST_RESOLVER_UNLOCK,
                t3: DEST_ANYONE_UNLOCK,
                t4: DEST_ANYONE_UNLOCK,
            }),
            r.wf(),
    {
        Timelocks {
            leg: Leg::Dest,
            t1: DEST_FINALITY_LOCK,
            t2: DEST_RESOLVER_UNLOCK,
            t3: DEST_ANYONE_UNLOCK,
            t4: DEST_ANYONE_UNLOCK,
        }
    }
}

/// The phase of an escrow deployed at `deployed_at`, at instant `now`.
/// Before the deployment instant the escrow counts as still locked.
pub open spec fn phase_spec(tl: Timelocks, deployed_at: int, now: int) -> Phase {
    let elapsed = now - deployed_at;
    if elapsed < tl.t1 {
        Phase::Locked
    } else if elapsed < tl.t2 {
        Phase::ExecutiveWithdraw
    } else if elapsed < tl.t3 {
        Phase::PublicWithdraw
    } else if tl.leg is Source && elapsed < tl.t4 {
        Phase::ExecutiveCancel
    } else {
        Phase::PublicCancel
    }
}

/// Compute the phase of an escrow deployed at `deployed_at`, at `now`.
pub fn phase(tl: &Timelocks, deployed_at: u64, now: u64) -> (p: Phase)
    ensures
        p == phase_spec(*tl, deployed_at as int, now as int),
{
    if now < deployed_at {
        return Phase::Locked;
    }
    let elapsed = now - deployed_at;
    if elapsed < tl.t1 {
        Phase::Locked
    } else if elapsed < tl.t2 {
        Phase::ExecutiveWithdraw
    } else if elapsed < tl.t3 {
        Phase::PublicWithdraw
    } else if matches!(tl.leg, Leg::Source) && elapsed < tl.t4 {
        Phase::ExecutiveCancel
    } else {
        Phase::PublicCancel
    }
}

/// The phase an escrow is in depends on the elapsed time alone: two
/// instants at the same offset from their deployments see the same phase.
pub proof fn lemma_phase_by_elapsed(tl: Timelocks, d1: int, now1: int, d2: int, now2: int)
    requires
        now1 - d1 == now2 - d2,
    ensures
        phase_spec(tl, d1, now1) == phase_spec(tl, d2, now2),
{
}

/// At every instant exactly one phase applies, and each phase is exactly
/// one interval of elapsed time: the four authorization regimes can never
/// overlap.
pub proof fn lemma_phase_partition(tl: Timelocks, deployed_at: int, now: int)
    requires
        tl.wf(),
    ensures
        (phase_spec(tl, deployed_at, now) is Locked) <==> now - deployed_at < tl.t1,
        (phase_spec(tl, deployed_at, now) is ExecutiveWithdraw) <==> tl.t1 <= now - deployed_at
            < tl.t2,
        (phase_spec(tl, deployed_at, now) is PublicWithdraw) <==> tl.t2 <= now - deployed_at
            < tl.t3,
        (phase_spec(tl, deployed_at, now) is ExecutiveCancel) <==> (tl.leg is Source && tl.t3 <= now
            - deployed_at < tl.t4),
        (phase_spec(tl, deployed_at, now) is PublicCancel) <==> tl.t4 <= now - deployed_at,
{
}

/// One escrow instance: the frozen parameters captured at deployment,
/// and the single mutable fact — whether its balances have already been
/// drained by the one successful terminal transition.
pub struct Escrow {
    /// The order this escrow serves; a back-reference, immutable.
    pub order_id: Vec<u8>,
    /// The keccak-256 commitment copied from the order, immutable.
    pub hash_lock: Vec<u8>,
    /// When the escrow was deployed; all windows are measured from here.
    pub deployed_at: u64,
    /// The tiered window offsets of this leg.
    pub timelocks: Timelocks,
    /// The order's maker.
    pub maker: Principal,
    /// The resolver that filled the order: the sole principal with
    /// private-phase rights, fixed at deployment and deliberately
    /// untouched by later registry changes.
    pub executive_resolver: Principal,
    /// Reference to the escrowed asset, in the owning chain's format.
    pub asset: Vec<u8>,
    /// The escrowed principal amount.
    pub amount: u128,
    /// The native-asset collateral posted by the resolver, refunded to
    /// whichever caller completes the terminal transition.
    pub security_deposit: u128,
    /// Whether the one terminal transition has already happened.
    pub settled: bool,
}

/// The transfers a terminal transition orders: the full principal to the
/// resolved counterparty, and the full security deposit to the caller
/// that completed the transition.
#[derive(Clone, Copy, Debug, PartialEq, Eq, Structural)]
pub struct Settlement {
    pub asset_recipient: Principal,
    pub asset_amount: u128,
    pub deposit_recipient: Principal,
    pub deposit_amount: u128,
}

/// Who receives the escrowed asset on a withdrawal: the executive
/// resolver on the source leg, the maker on the destination leg.
pub open spec fn withdraw_recipient_spec(e: Escrow) -> Principal {
    if e.timelocks.leg is Source {
        e.executive_resolver
    } else {
        e.maker
    }
}

/// Who receives the escrowed asset on a cancellation: the maker on the
/// source leg (made whole when no secret was revealed in time), the
/// executive resolver on the destination leg (reclaiming the liquidity it
/// posted).
pub open spec fn cancel_recipient_spec(e: Escrow) -> Principal {
    if e.timelocks.leg is Source {
        e.maker
    } else {
        e.executive_resolver
    }
}

/// The settlement a terminal transition on `e` orders, with the asset
/// going to `asset_to` and the deposit to `deposit_to`: always the full
/// balances.
pub open spec fn full_settlement(e: Escrow, asset_to: Principal, deposit_to: Principal) -> Settlement {
    Settlement {
        asset_recipient: asset_to,
        asset_amount: e.amount,
        deposit_recipient: deposit_to,
        deposit_amount: e.security_deposit,
    }
}

/// What `withdraw` decides, in check order: an already-drained escrow,
/// then the window, then the caller's role, then the secret.
pub open spec fn withdraw_outcome(e: Escrow, now: int, caller: Principal, secret: Seq<u8>) -> Result<
    Settlement,
    Error,
> {
    if e.settled {
        Err(Error::AlreadySettled)
    } else if now - e.deployed_at < e.timelocks.t1 {
        Err(Error::WindowNotOpen)
    } else if now - e.deployed_at >= e.timelocks.t2 {
        Err(Error::WindowClosed)
    } else if caller != e.executive_resolver {
        Err(Error::NotExecutiveResolver)
    } else if e.hash_lock@ != keccak256_of(secret) {
        Err(Error::InvalidSecret)
    } else {
        Ok(full_settlement(e, withdraw_recipient_spec(e), caller))
    }
}

/// What `public_withdraw` decides; `whitelisted` is the registry's
/// verdict on the caller. The caller is only a keeper: the asset still
/// goes to the intended counterparty, the caller earns the deposit.
pub open spec fn public_withdraw_outcome(
    e: Escrow,
    now: int,
    caller: Principal,
    whitelisted: bool,
    secret: Seq<u8>,
) -> Result<Settlement, Error> {
    if e.settled {
        Err(Error::AlreadySettled)
    } else if now - e.deployed_at < e.timelocks.t2 {
        Err(Error::WindowNotOpen)
    } else if now - e.deployed_at >= e.timelocks.t3 {
        Err(Error::WindowClosed)
    } else if !whitelisted {
        Err(Error::NotAuthorizedResolver)
    } else if e.hash_lock@ != keccak256_of(secret) {
        Err(Error::InvalidSecret)
    } else {
        Ok(full_settlement(e, withdraw_recipient_spec(e), caller))
    }
}

/// What `cancel` — the source leg's executive cancellation — decides.
pub open spec fn cancel_outcome(e: Escrow, now: int, caller: Principal) -> Result<
    Settlement,
    Error,
> {
    if e.settled {
        Err(Error::AlreadySettled)
    } else if now - e.deployed_at < e.timelocks.t3 {
        Err(Error::WindowNotOpen)
    } else if now - e.deployed_at >= e.timelocks.t4 {
        Err(Error::WindowClosed)
    } else if caller != e.executive_resolver {
        Err(Error::NotExecutiveResolver)
    } else {
        Ok(full_settlement(e, cancel_recipient_spec(e), caller))
    }
}

/// What `public_cancel` decides; open from `t4` on the source leg and
/// from `t3` on the destination leg, with no upper bound.
pub open spec fn public_cancel_outcome(
    e: Escrow,
    now: int,
    caller: Principal,
    whitelisted: bool,
) -> Result<Settlement, Error> {
    let opens = if e.timelocks.leg is Source {
        e.timelocks.t4
    } else {
        e.timelocks.t3
    };
    if e.settled {
        Err(Error::AlreadySettled)
    } else if now - e.deployed_at < opens {
        Err(Error::WindowNotOpen)
    } else if !whitelisted {
        Err(Error::NotAuthorizedResolver)
    } else {
        Ok(full_settlement(e, cancel_recipient_spec(e), caller))
    }
}

/// The immutable fields of two escrow values agree; only `settled` may
/// ever differ across an operation.
pub open spec fn frozen_fields_eq(a: Escrow, b: Escrow) -> bool {
    &&& a.order_id@ == b.order_id@
    &&& a.hash_lock@ == b.hash_lock@
    &&& a.deployed_at == b.deployed_at
    &&& a.timelocks == b.timelocks
    &&& a.maker == b.maker
    &&& a.executive_resolver == b.executive_resolver
    &&& a.asset@ == b.asset@
    &&& a.amount == b.amount
    &&& a.security_deposit == b.security_deposit
}

impl Escrow {
    /// A hash lock is always a full keccak-256 digest, and the window
    /// offsets are valid for the leg.
    pub open spec fn wf(self) -> bool {
        &&& self.hash_lock@.len() == 32
        &&& self.timelocks.wf()
    }

    /// Executive withdrawal, with the revealed secret. Open to the
    /// executive resolver alone during `[t1, t2)`; requires the secret to
    /// hash to the stored commitment; drains the full principal to the
    /// leg's counterparty and the full deposit to the caller, exactly
    /// once.
    pub fn withdraw(&mut self, now: u64, caller: Principal, secret: &Vec<u8>) -> (r: Result<
        Settlement,
        Error,
    >)
        requires
            old(self).wf(),
        ensures
            final(self).wf(),
            frozen_fields_eq(*old(self), *final(self)),
            r == withdraw_outcome(*old(self), now as int, caller, secret@),
            final(self).settled == (old(self).settled || r is Ok),
    {
        if self.settled {
            return Err(Error::AlreadySettled);
        }
        if now < self.deployed_at || now - self.deployed_at < self.timelocks.t1 {
            return Err(Error::WindowNotOpen);
        }
        if now - self.deployed_at >= self.timelocks.t2 {
            return Err(Error::WindowClosed);
        }
        if caller.id != self.executive_resolver.id {
            return Err(Error::NotExecutiveResolver);
        }
        if !verify(&self.hash_lock, secret) {
            return Err(Error::InvalidSecret);
        }
        self.settled = true;
        let asset_to = if matches!(self.timelocks.leg, Leg::Source) {
            self.executive_resolver
        } else {
            self.maker
        };
        Ok(Settlement {
            asset_recipient: asset_to,
            asset_amount: self.amount,
            deposit_recipient: caller,
            deposit_amount: self.security_deposit,
        })
    }

    /// Public withdrawal, with the revealed secret. Open to any currently
    /// whitelisted resolver during `[t2, t3)`: the caller merely completes
    /// a stalled swap, so the asset still goes to the intended
    /// counterparty and the caller earns only the deposit refund.
    pub fn public_withdraw(
        &mut self,
        now: u64,
        caller: Principal,
        registry: &Relayer,
        secret: &Vec<u8>,
    ) -> (r: Result<Settlement, Error>)
        requires
            old(self).wf(),
        ensures
            final(self).wf(),
            frozen_fields_eq(*old(self), *final(self)),
            r == public_withdraw_outcome(
                *old(self),
                now as int,
                caller,
                registry.is_whitelisted(caller),
                secret@,
            ),
            final(self).settled == (old(self).settled || r is Ok),
    {
        if self.settled {
            return Err(Error::AlreadySettled);
        }
        if now < self.deployed_at || now - self.deployed_at < self.timelocks.t2 {
            return Err(Error::WindowNotOpen);
        }
        if now - self.deployed_at >= self.timelocks.t3 {
            return Err(Error::WindowClosed);
        }
        if !registry.is_resolver(caller) {
            return Err(Error::NotAuthorizedResolver);
        }
        if !verify(&self.hash_lock, secret) {
            return Err(Error::InvalidSecret);
        }
        self.settled = true;
        let asset_to = if matches!(self.timelocks.leg, Leg::Source) {
            self.executive_resolver
        } else {
            self.maker
        };
        Ok(Settlement {
            asset_recipient: asset_to,
            asset_amount: self.amount,
            deposit_recipient: caller,
            deposit_amount: self.security_deposit,
        })
    }

    /// Executive cancellation, on the source leg only: during `[t3, t4)`
    /// the executive resolver returns the input asset to the maker and
    /// reclaims its deposit, for the case where no secret was revealed in
    /// time.
    pub fn cancel(&mut self, now: u64, caller: Principal) -> (r: Result<Settlement, Error>)
        requires
            old(self).wf(),
            old(self).timelocks.leg is Source,
        ensures
            final(self).wf(),
            frozen_fields_eq(*old(self), *final(self)),
            r == cancel_outcome(*old(self), now as int, caller),
            final(self).settled == (old(self).settled || r is Ok),
    {
        if self.settled {
            return Err(Error::AlreadySettled);
        }
        if now < self.deployed_at || now - self.deployed_at < self.timelocks.t3 {
            return Err(Error::WindowNotOpen);
        }
        if now - self.deployed_at >= self.timelocks.t4 {
            return Err(Error::WindowClosed);
        }
        if caller.id != self.executive_resolver.id {
            return Err(Error::NotExecutiveResolver);
        }
        self.settled = true;
        Ok(Settlement {
            asset_recipient: self.maker,
            asset_amount: self.amount,
            deposit_recipient: caller,
            deposit_amount: self.security_deposit,
        })
    }

    /// Public cancellation: open without upper bound to any currently
    /// whitelisted resolver, from `t4` on the source leg and from `t3` on
    /// the destination leg. The asset returns to the leg's refund target;
    /// the caller earns only the deposit.
    pub fn public_cancel(&mut self, now: u64, caller: Principal, registry: &Relayer) -> (r: Result<
        Settlement,
        Error,
    >)
        requires
            old(self).wf(),
        ensures
            final(self).wf(),
            frozen_fields_eq(*old(self), *final(self)),
            r == public_cancel_outcome(
                *old(self),
                now as int,
                caller,
                registry.is_whitelisted(caller),
            ),
            final(self).settled == (old(self).settled || r is Ok),
    {
        let opens = if matches!(self.timelocks.leg, Leg::Source) {
            self.timelocks.t4
        } else {
            self.timelocks.t3
        };
        if self.settled {
            return Err(Error::AlreadySettled);
        }
        if now < self.deployed_at || now - self.deployed_at < opens {
            return Err(Error::WindowNotOpen);
        }
        if !registry.is_resolver(caller) {
            return Err(Error::NotAuthorizedResolver);
        }
        self.settled = true;
        let asset_to = if matches!(self.timelocks.leg, Leg::Source) {
            self.maker
        } else {
            self.executive_resolver
        };
        Ok(Settlement {
            asset_recipient: asset_to,
            asset_amount: self.amount,
            deposit_recipient: caller,
            deposit_amount: self.security_deposit,
        })
    }
}

/// Once an escrow is drained, every further withdrawal or cancellation
/// attempt — by anyone, at any instant, with any secret — fails with
/// `AlreadySettled`: the full principal and deposit leave exactly once.
pub proof fn lemma_settled_rejects_everything(
    e: Escrow,
    now: int,
    caller: Principal,
    whitelisted: bool,
    secret: Seq<u8>,
)
    requires
        e.settled,
    ensures
        withdraw_outcome(e, now, caller, secret) == Err::<Settlement, Error>(Error::AlreadySettled),
        public_withdraw_outcome(e, now, caller, whitelisted, secret) == Err::<Settlement, Error>(
            Error::AlreadySettled,
        ),
        cancel_outcome(e, now, caller) == Err::<Settlement, Error>(Error::AlreadySettled),
        public_cancel_outcome(e, now, caller, whitelisted) == Err::<Settlement, Error>(
            Error::AlreadySettled,
        ),
{
}

/// A terminal transition can succeed only inside its own phase: each of
/// the four operations' windows maps to exactly one phase of the
/// state machine, so at any instant at most one class of principal can
/// act, and during the finality lock nobody can.
pub proof fn lemma_success_needs_phase(
    e: Escrow,
    now: int,
    caller: Principal,
    whitelisted: bool,
    secret: Seq<u8>,
)
    requires
        e.wf(),
    ensures
        withdraw_outcome(e, now, caller, secret) is Ok ==> phase_spec(
            e.timelocks,
            e.deployed_at as int,
            now,
        ) is ExecutiveWithdraw,
        public_withdraw_outcome(e, now, caller, whitelisted, secret) is Ok ==> phase_spec(
            e.timelocks,
            e.deployed_at as int,
            now,
        ) is PublicWithdraw,
        cancel_outcome(e, now, caller) is Ok ==> phase_spec(
            e.timelocks,
            e.deployed_at as int,
            now,
        ) is ExecutiveCancel,
        public_cancel_outcome(e, now, caller, whitelisted) is Ok ==> phase_spec(
            e.timelocks,
            e.deployed_at as int,
            now,
        ) is PublicCancel,
{
    lemma_phase_partition(e.timelocks, e.deployed_at as int, now);
}

} // verus!
