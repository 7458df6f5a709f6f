//! Token bookkeeping: the balance/allowance ledgers behind the wrapped
//! token contract and the mock token. The ledger itself is pure
//! bookkeeping — external asset movement backing a deposit or a
//! withdrawal happens at the host boundary; every operation here either
//! applies its whole balance effect or fails with nothing changed.

use vstd::prelude::*;
use vstd::pervasive::VecAdditionalExecFns;
use crate::types::{bytes_clone, bytes_eq, Error, Principal};

verus! {

/// One balance record: `owner` holds `amount` units of `token`.
#[derive(Clone, Copy, Debug, PartialEq, Eq, Structural)]
pub struct BalanceEntry {
    pub token: Principal,
    pub owner: Principal,
    pub amount: u128,
}

/// One allowance record: `owner` lets `spender` move up to `amount`
/// units of `token`.
#[derive(Clone, Copy, Debug, PartialEq, Eq, Structural)]
pub struct AllowanceEntry {
    pub token: Principal,
    pub owner: Principal,
    pub spender: Principal,
    pub amount: u128,
}

/// The balance the ledger records for `(token, owner)`; zero when no
/// record exists.
pub open spec fn balance_of(s: Seq<BalanceEntry>, token: Principal, owner: Principal) -> u128
    decreases s.len(),
{
    if s.len() == 0 {
        0
    } else if s[0].token == token && s[0].owner == owner {
        s[0].amount
    } else {
        balance_of(s.drop_first(), token, owner)
    }
}

/// The allowance the ledger records for `(token, owner, spender)`; zero
/// when no record exists.
pub open spec fn allowance_of(
    s: Seq<AllowanceEntry>,
    token: Principal,
    owner: Principal,
    spender: Principal,
) -> u128
    decreases s.len(),
{
    if s.len() == 0 {
        0
    } else if s[0].token == token && s[0].owner == owner && s[0].spender == spender {
        s[0].amount
    } else {
        allowance_of(s.drop_first(), token, owner, spender)
    }
}

/// Every balance except `(token, owner)` agrees between `a` and `b`.
pub open spec fn balances_agree_except(
    a: Seq<BalanceEntry>,
    b: Seq<BalanceEntry>,
    token: Principal,
    owner: Principal,
) -> bool {
    forall|t: Principal, o: Principal|
        !(t == token && o == owner) ==> balance_of(a, t, o) == balance_of(b, t, o)
}

/// Every balance except `(token, o1)` and `(token, o2)` agrees between
/// `a` and `b`.
pub open spec fn balances_agree_except2(
    a: Seq<BalanceEntry>,
    b: Seq<BalanceEntry>,
    token: Principal,
    o1: Principal,
    o2: Principal,
) -> bool {
    forall|t: Principal, o: Principal|
        !(t == token && (o == o1 || o == o2)) ==> balance_of(a, t, o) == balance_of(b, t, o)
}

/// Every allowance except `(token, owner, spender)` agrees between `a`
/// and `b`.
pub open spec fn allowances_agree_except(
    a: Seq<AllowanceEntry>,
    b: Seq<AllowanceEntry>,
    token: Principal,
    owner: Principal,
    spender: Principal,
) -> bool {
    forall|t: Principal, o: Principal, p: Principal|
        !(t == token && o == owner && p == spender) ==> allowance_of(a, t, o, p) == allowance_of(
            b,
            t,
            o,
            p,
        )
}

proof fn lemma_balance_none(s: Seq<BalanceEntry>, token: Principal, owner: Principal)
    requires
        forall|j: int|
            0 <= j < s.len() ==> !((#[trigger] s[j]).token == token && s[j].owner == owner),
    ensures
        balance_of(s, token, owner) == 0,
    decreases s.len(),
{
    if s.len() > 0 {
        lemma_balance_none(s.drop_first(), token, owner);
    }
}

proof fn lemma_balance_index(s: Seq<BalanceEntry>, token: Principal, owner: Principal, i: int)
    requires
        0 <= i < s.len(),
        s[i].token == token,
        s[i].owner == owner,
        forall|j: int| 0 <= j < i ==> !((#[trigger] s[j]).token == token && s[j].owner == owner),
    ensures
        balance_of(s, token, owner) == s[i].amount,
    decreases i,
{
    if i > 0 {
        lemma_balance_index(s.drop_first(), token, owner, i - 1);
    }
}

proof fn lemma_balance_update(
    s: Seq<BalanceEntry>,
    i: int,
    e: BalanceEntry,
    t2: Principal,
    o2: Principal,
)
    requires
        0 <= i < s.len(),
        e.token == s[i].token,
        e.owner == s[i].owner,
        !(t2 == e.token && o2 == e.owner),
    ensures
        balance_of(s.update(i, e), t2, o2) == balance_of(s, t2, o2),
    decreases i,
{
    if i == 0 {
        assert(s.update(0, e).drop_first() =~= s.drop_first());
    } else {
        assert(s.update(i, e).drop_first() =~= s.drop_first().update(i - 1, e));
        lemma_balance_update(s.drop_first(), i - 1, e, t2, o2);
    }
}

proof fn lemma_balance_push(s: Seq<BalanceEntry>, e: BalanceEntry, t2: Principal, o2: Principal)
    requires
        !(t2 == e.token && o2 == e.owner),
    ensures
        balance_of(s.push(e), t2, o2) == balance_of(s, t2, o2),
    decreases s.len(),
{
    if s.len() == 0 {
        assert(s.push(e).drop_first() =~= s);
    } else {
        assert(s.push(e).drop_first() =~= s.drop_first().push(e));
        lemma_balance_push(s.drop_first(), e, t2, o2);
    }
}

proof fn lemma_allowance_none(
    s: Seq<AllowanceEntry>,
    token: Principal,
    owner: Principal,
    spender: Principal,
)
    requires
        forall|j: int|
            0 <= j < s.len() ==> !((#[trigger] s[j]).token == token && s[j].owner == owner
                && s[j].spender == spender),
    ensures
        allowance_of(s, token, owner, spender) == 0,
    decreases s.len(),
{
    if s.len() > 0 {
        lemma_allowance_none(s.drop_first(), token, owner, spender);
    }
}

proof fn lemma_allowance_index(
    s: Seq<AllowanceEntry>,
    token: Principal,
    owner: Principal,
    spender: Principal,
    i: int,
)
    requires
        0 <= i < s.len(),
        s[i].token == token,
        s[i].owner == owner,
        s[i].spender == spender,
        forall|j: int|
            0 <= j < i ==> !((#[trigger] s[j]).token == token && s[j].owner == owner
                && s[j].spender == spender),
    ensures
        allowance_of(s, token, owner, spender) == s[i].amount,
    decreases i,
{
    if i > 0 {
        lemma_allowance_index(s.drop_first(), token, owner, spender, i - 1);
    }
}

proof fn lemma_allowance_update(
    s: Seq<AllowanceEntry>,
    i: int,
    e: AllowanceEntry,
    t2: Principal,
    o2: Principal,
    p2: Principal,
)
    requires
        0 <= i < s.len(),
        e.token == s[i].token,
        e.owner == s[i].owner,
        e.spender == s[i].spender,
        !(t2 == e.token && o2 == e.owner && p2 == e.spender),
    ensures
        allowance_of(s.update(i, e), t2, o2, p2) == allowance_of(s, t2, o2, p2),
    decreases i,
{
    if i == 0 {
        assert(s.update(0, e).drop_first() =~= s.drop_first());
    } else {
        assert(s.update(i, e).drop_first() =~= s.drop_first().update(i - 1, e));
        lemma_allowance_update(s.drop_first(), i - 1, e, t2, o2, p2);
    }
}

proof fn lemma_allowance_push(
    s: Seq<AllowanceEntry>,
    e: AllowanceEntry,
    t2: Principal,
    o2: Principal,
    p2: Principal,
)
    requires
        !(t2 == e.token && o2 == e.owner && p2 == e.spender),
    ensures
        allowance_of(s.push(e), t2, o2, p2) == allowance_of(s, t2, o2, p2),
    decreases s.len(),
{
    if s.len() == 0 {
        assert(s.push(e).drop_first() =~= s);
    } else {
        assert(s.push(e).drop_first() =~= s.drop_first().push(e));
        lemma_allowance_push(s.drop_first(), e, t2, o2, p2);
    }
}

/// A multi-token balance and allowance ledger.
pub struct TokenLedger {
    pub balances: Vec<BalanceEntry>,
    pub allowances: Vec<AllowanceEntry>,
}

impl TokenLedger {
    /// An empty ledger: every balance and allowance is zero.
    pub fn new() -> (r: TokenLedger)
        ensures
            r.balances@.len() == 0,
            r.allowances@.len() == 0,
    {
        TokenLedger { balances: Vec::new(), allowances: Vec::new() }
    }

    /// The recorded balance of `(token, owner)`; zero when unknown.
    pub fn balance(&self, token: Principal, owner: Principal) -> (r: u128)
        ensures
            r == balance_of(self.balances@, token, owner),
    {
        let mut i: usize = 0;
        while i < self.balances.len()
            invariant
                i <= self.balances@.len(),
                forall|j: int|
                    0 <= j < i ==> !((#[trigger] self.balances@[j]).token == token
                        && self.balances@[j].owner == owner),
            decreases self.balances@.len() - i,
        {
            if self.balances[i].token.id == token.id && self.balances[i].owner.id == owner.id {
                proof {
                    lemma_balance_index(self.balances@, token, owner, i as int);
                }
                return self.balances[i].amount;
            }
            i += 1;
        }
        proof {
            lemma_balance_none(self.balances@, token, owner);
        }
        0
    }

    /// The recorded allowance of `(token, owner, spender)`; zero when
    /// unknown.
    pub fn allowance(&self, token: Principal, owner: Principal, spender: Principal) -> (r: u128)
        ensures
            r == allowance_of(self.allowances@, token, owner, spender),
    {
        let mut i: usize = 0;
        while i < self.allowances.len()
            invariant
                i <= self.allowances@.len(),
                forall|j: int|
                    0 <= j < i ==> !((#[trigger] self.allowances@[j]).token == token
                        && self.allowances@[j].owner == owner && self.allowances@[j].spender
                        == spender),
            decreases self.allowances@.len() - i,
        {
            if self.allowances[i].token.id == token.id && self.allowances[i].owner.id == owner.id
                && self.allowances[i].spender.id == spender.id {
                proof {
                    lemma_allowance_index(self.allowances@, token, owner, spender, i as int);
                }
                return self.allowances[i].amount;
            }
            i += 1;
        }
        proof {
            lemma_allowance_none(self.allowances@, token, owner, spender);
        }
        0
    }

    /// Record `(token, owner) := amount`, leaving every other balance
    /// and all allowances untouched.
    pub fn set_balance(&mut self, token: Principal, owner: Principal, amount: u128)
        ensures
            balance_of(final(self).balances@, token, owner) == amount,
            balances_agree_except(final(self).balances@, old(self).balances@, token, owner),
            final(self).allowances@ == old(self).allowances@,
    {
        let mut i: usize = 0;
        while i < self.balances.len()
            invariant
                i <= self.balances@.len(),
                self.balances@ == old(self).balances@,
                self.allowances@ == old(self).allowances@,
                forall|j: int|
                    0 <= j < i ==> !((#[trigger] self.balances@[j]).token == token
                        && self.balances@[j].owner == owner),
            decreases self.balances@.len() - i,
        {
            if self.balances[i].token.id == token.id && self.balances[i].owner.id == owner.id {
                let ghost pre = self.balances@;
                let entry = BalanceEntry { token, owner, amount };
                self.balances.set(i, entry);
                proof {
                    lemma_balance_index(self.balances@, token, owner, i as int);
                    assert forall|t: Principal, o: Principal| !(t == token && o == owner) implies
                        balance_of(self.balances@, t, o) == balance_of(pre, t, o) by {
                        lemma_balance_update(pre, i as int, entry, t, o);
                    }
                }
                return ;
            }
            i += 1;
        }
        let ghost pre = self.balances@;
        let entry = BalanceEntry { token, owner, amount };
        self.balances.push(entry);
        proof {
            lemma_balance_index(self.balances@, token, owner, pre.len() as int);
            assert forall|t: Principal, o: Principal| !(t == token && o == owner) implies
                balance_of(self.balances@, t, o) == balance_of(pre, t, o) by {
                lemma_balance_push(pre, entry, t, o);
            }
        }
    }

    /// Record `(token, owner, spender) := amount`, leaving every other
    /// allowance and all balances untouched.
    pub fn set_allowance(&mut self, token: Principal, owner: Principal, spender: Principal, amount: u128)
        ensures
            allowance_of(final(self).allowances@, token, owner, spender) == amount,
            allowances_agree_except(
                final(self).allowances@,
                old(self).allowances@,
                token,
                owner,
                spender,
            ),
            final(self).balances@ == old(self).balances@,
    {
        let mut i: usize = 0;
        while i < self.allowances.len()
            invariant
                i <= self.allowances@.len(),
                self.balances@ == old(self).balances@,
                self.allowances@ == old(self).allowances@,
                forall|j: int|
                    0 <= j < i ==> !((#[trigger] self.allowances@[j]).token == token
                        && self.allowances@[j].owner == owner && self.allowances@[j].spender
                        == spender),
            decreases self.allowances@.len() - i,
        {
            if self.allowances[i].token.id == token.id && self.allowances[i].owner.id == owner.id
                && self.allowances[i].spender.id == spender.id {
                let ghost pre = self.allowances@;
                let entry = AllowanceEntry { token, owner, spender, amount };
                self.allowances.set(i, entry);
                proof {
                    lemma_allowance_index(self.allowances@, token, owner, spender, i as int);
                    assert forall|t: Principal, o: Principal, p: Principal|
                        !(t == token && o == owner && p == spender) implies allowance_of(
                        self.allowances@,
                        t,
                        o,
                        p,
                    ) == allowance_of(pre, t, o, p) by {
                        lemma_allowance_update(pre, i as int, entry, t, o, p);
                    }
                }
                return ;
            }
            i += 1;
        }
        let ghost pre = self.allowances@;
        let entry = AllowanceEntry { token, owner, spender, amount };
        self.allowances.push(entry);
        proof {
            lemma_allowance_index(self.allowances@, token, owner, spender, pre.len() as int);
            assert forall|t: Principal, o: Principal, p: Principal|
                !(t == token && o == owner && p == spender) implies allowance_of(
                self.allowances@,
                t,
                o,
                p,
            ) == allowance_of(pre, t, o, p) by {
                lemma_allowance_push(pre, entry, t, o, p);
            }
        }
    }

    /// Credit `amount` to `(token, owner)`. Rejects a zero amount and a
    /// balance that would no longer fit; on rejection nothing changes.
    pub fn credit(&mut self, token: Principal, owner: Principal, amount: u128) -> (r: Result<
        (),
        Error,
    >)
        ensures
            final(self).allowances@ == old(self).allowances@,
            amount == 0 || balance_of(old(self).balances@, token, owner) + amount > u128::MAX
                <==> r == Err::<(), Error>(Error::TransferFailed),
            r is Err ==> r == Err::<(), Error>(Error::TransferFailed),
            r is Err ==> final(self).balances@ == old(self).balances@,
            r is Ok ==> balance_of(final(self).balances@, token, owner) == balance_of(
                old(self).balances@,
                token,
                owner,
            ) + amount && balances_agree_except(
                final(self).balances@,
                old(self).balances@,
                token,
                owner,
            ),
    {
        if amount == 0 {
            return Err(Error::TransferFailed);
        }
        let current = self.balance(token, owner);
        if amount > u128::MAX - current {
            return Err(Error::TransferFailed);
        }
        self.set_balance(token, owner, current + amount);
        Ok(())
    }

    /// Debit `amount` from `(token, owner)`. Rejects a zero amount and
    /// an insufficient balance; on rejection nothing changes.
    pub fn debit(&mut self, token: Principal, owner: Principal, amount: u128) -> (r: Result<
        (),
        Error,
    >)
        ensures
            final(self).allowances@ == old(self).allowances@,
            amount == 0 || amount > balance_of(old(self).balances@, token, owner) <==> r == Err::<
                (),
                Error,
            >(Error::TransferFailed),
            r is Err ==> r == Err::<(), Error>(Error::TransferFailed),
            r is Err ==> final(self).balances@ == old(self).balances@,
            r is Ok ==> balance_of(final(self).balances@, token, owner) == balance_of(
                old(self).balances@,
                token,
                owner,
            ) - amount && balances_agree_except(
                final(self).balances@,
                old(self).balances@,
                token,
                owner,
            ),
    {
        if amount == 0 {
            return Err(Error::TransferFailed);
        }
        let current = self.balance(token, owner);
        if amount > current {
            return Err(Error::TransferFailed);
        }
        self.set_balance(token, owner, current - amount);
        Ok(())
    }

    /// Let `spender` move up to `amount` of `owner`'s `token`; the owner
    /// must hold at least that much. On rejection nothing changes.
    pub fn approve(
        &mut self,
        token: Principal,
        owner: Principal,
        spender: Principal,
        amount: u128,
    ) -> (r: Result<(), Error>)
        ensures
            final(self).balances@ == old(self).balances@,
            amount > balance_of(old(self).balances@, token, owner) <==> r == Err::<(), Error>(
                Error::TransferFailed,
            ),
            r is Err ==> r == Err::<(), Error>(Error::TransferFailed),
            r is Err ==> final(self).allowances@ == old(self).allowances@,
            r is Ok ==> allowance_of(final(self).allowances@, token, owner, spender) == amount
                && allowances_agree_except(
                final(self).allowances@,
                old(self).allowances@,
                token,
                owner,
                spender,
            ),
    {
        let current = self.balance(token, owner);
        if amount > current {
            return Err(Error::TransferFailed);
        }
        self.set_allowance(token, owner, spender, amount);
        Ok(())
    }

    /// Move `amount` of `token` from `caller` to `to`. Rejects a zero
    /// amount, an insufficient balance, and a recipient balance that
    /// would no longer fit; on rejection nothing changes. Moving to
    /// oneself is a no-op success.
    pub fn transfer(&mut self, token: Principal, caller: Principal, to: Principal, amount: u128) -> (r:
        Result<(), Error>)
        ensures
            final(self).allowances@ == old(self).allowances@,
            amount == 0 || amount > balance_of(old(self).balances@, token, caller) || (caller != to
                && balance_of(old(self).balances@, token, to) + amount > u128::MAX) <==> r
                == Err::<(), Error>(Error::TransferFailed),
            r is Err ==> r == Err::<(), Error>(Error::TransferFailed),
            r is Err ==> final(self).balances@ == old(self).balances@,
            r is Ok && caller == to ==> final(self).balances@ == old(self).balances@,
            r is Ok && caller != to ==> balance_of(final(self).balances@, token, caller)
                == balance_of(old(self).balances@, token, caller) - amount && balance_of(
                final(self).balances@,
                token,
                to,
            ) == balance_of(old(self).balances@, token, to) + amount && balances_agree_except2(
                final(self).balances@,
                old(self).balances@,
                token,
                caller,
                to,
            ),
    {
        if amount == 0 {
            return Err(Error::TransferFailed);
        }
        let sender_balance = self.balance(token, caller);
        if amount > sender_balance {
            return Err(Error::TransferFailed);
        }
        if caller.id == to.id {
            return Ok(());
        }
        let recipient_balance = self.balance(token, to);
        if amount > u128::MAX - recipient_balance {
            return Err(Error::TransferFailed);
        }
        self.set_balance(token, caller, sender_balance - amount);
        self.set_balance(token, to, recipient_balance + amount);
        Ok(())
    }

    /// Move `amount` of `token` from `from` to `to` on `spender`'s
    /// authority, consuming that much of the allowance. Rejects a zero
    /// amount, an insufficient allowance or balance, and a recipient
    /// balance that would no longer fit; on rejection nothing changes.
    pub fn transfer_from(
        &mut self,
        token: Principal,
        spender: Principal,
        from: Principal,
        to: Principal,
        amount: u128,
    ) -> (r: Result<(), Error>)
        ensures
            amount == 0 || amount > allowance_of(old(self).allowances@, token, from, spender)
                || amount > balance_of(old(self).balances@, token, from) || (from != to
                && balance_of(old(self).balances@, token, to) + amount > u128::MAX) <==> r
                == Err::<(), Error>(Error::TransferFailed),
            r is Err ==> r == Err::<(), Error>(Error::TransferFailed),
            r is Err ==> final(self).balances@ == old(self).balances@ && final(self).allowances@
                == old(self).allowances@,
            r is Ok ==> allowance_of(final(self).allowances@, token, from, spender)
                == allowance_of(old(self).allowances@, token, from, spender) - amount
                && allowances_agree_except(
                final(self).allowances@,
                old(self).allowances@,
                token,
                from,
                spender,
            ),
            r is Ok && from == to ==> final(self).balances@ == old(self).balances@,
            r is Ok && from != to ==> balance_of(final(self).balances@, token, from) == balance_of(
                old(self).balances@,
                token,
                from,
            ) - amount && balance_of(final(self).balances@, token, to) == balance_of(
                old(self).balances@,
                token,
                to,
            ) + amount && balances_agree_except2(
                final(self).balances@,
                old(self).balances@,
                token,
                from,
                to,
            ),
    {
        if amount == 0 {
            return Err(Error::TransferFailed);
        }
        let current_allowance = self.allowance(token, from, spender);
        if amount > current_allowance {
            return Err(Error::TransferFailed);
        }
        let from_balance = self.balance(token, from);
        if amount > from_balance {
            return Err(Error::TransferFailed);
        }
        if from.id != to.id {
            let to_balance = self.balance(token, to);
            if amount > u128::MAX - to_balance {
                return Err(Error::TransferFailed);
            }
            self.set_allowance(token, from, spender, current_allowance - amount);
            self.set_balance(token, from, from_balance - amount);
            self.set_balance(token, to, to_balance + amount);
        } else {
            self.set_allowance(token, from, spender, current_allowance - amount);
        }
        Ok(())
    }
}

/// A permit signature hash that was already consumed by `owner`.
pub struct SignatureEntry {
    pub owner: Principal,
    pub hash: Vec<u8>,
}

/// Whether `owner` has already consumed a permit with this signature
/// hash.
pub open spec fn signature_used(s: Seq<SignatureEntry>, owner: Principal, hash: Seq<u8>) -> bool {
    exists|i: int|
        0 <= i < s.len() && (#[trigger] s[i]).owner == owner && s[i].hash@ == hash
}

/// Recording one consumed signature leaves every other record as it was.
proof fn lemma_signature_push(s: Seq<SignatureEntry>, e: SignatureEntry, o2: Principal, h2: Seq<u8>)
    ensures
        signature_used(s.push(e), o2, h2) == (signature_used(s, o2, h2) || (e.owner == o2 && e.hash@
            == h2)),
{
    if signature_used(s.push(e), o2, h2) {
        let i = choose|i: int|
            0 <= i < s.push(e).len() && (#[trigger] s.push(e)[i]).owner == o2 && s.push(e)[i].hash@
                == h2;
        if i < s.len() {
            assert(s[i] == s.push(e)[i]);
            assert(signature_used(s, o2, h2));
        } else {
            assert(s.push(e)[i] == e);
        }
    }
    if signature_used(s, o2, h2) {
        let i = choose|i: int|
            0 <= i < s.len() && (#[trigger] s[i]).owner == o2 && s[i].hash@ == h2;
        assert(s.push(e)[i] == s[i]);
        assert(signature_used(s.push(e), o2, h2));
    }
    if e.owner == o2 && e.hash@ == h2 {
        assert(s.push(e)[s.len() as int] == e);
        assert(signature_used(s.push(e), o2, h2));
    }
}

/// The wrapped-token contract: a multi-token ledger plus replay
/// protection for signature-based approvals. The cryptographic check of
/// a permit's signature is the host's authorization primitive and runs
/// at the boundary, before the bookkeeping here.
pub struct WrappedTokens {
    pub ledger: TokenLedger,
    pub used_signatures: Vec<SignatureEntry>,
}

impl WrappedTokens {
    /// An empty wrapper: no balances, no allowances, no consumed
    /// signatures.
    pub fn new() -> (r: WrappedTokens)
        ensures
            r.ledger.balances@.len() == 0,
            r.ledger.allowances@.len() == 0,
            r.used_signatures@.len() == 0,
    {
        WrappedTokens { ledger: TokenLedger::new(), used_signatures: Vec::new() }
    }

    /// Whether `owner` has already consumed a permit with this signature
    /// hash.
    pub fn is_signature_used(&self, owner: Principal, hash: &Vec<u8>) -> (r: bool)
        ensures
            r == signature_used(self.used_signatures@, owner, hash@),
    {
        let mut i: usize = 0;
        while i < self.used_signatures.len()
            invariant
                i <= self.used_signatures@.len(),
                forall|j: int|
                    0 <= j < i ==> !((#[trigger] self.used_signatures@[j]).owner == owner
                        && self.used_signatures@[j].hash@ == hash@),
            decreases self.used_signatures@.len() - i,
        {
            if self.used_signatures[i].owner.id == owner.id && bytes_eq(
                &self.used_signatures[i].hash,
                hash,
            ) {
                return true;
            }
            i += 1;
        }
        proof {
            if signature_used(self.used_signatures@, owner, hash@) {
                let k = choose|k: int|
                    0 <= k < self.used_signatures@.len() && (#[trigger] self.used_signatures@[
                        k
                    ]).owner == owner && self.used_signatures@[k].hash@ == hash@;
                assert(false);
            }
        }
        false
    }

    /// Consume a signed approval: a never-seen signature hash grants
    /// `spender` the allowance and is remembered forever; a replayed one
    /// is rejected with nothing changed.
    pub fn permit(
        &mut self,
        token: Principal,
        owner: Principal,
        spender: Principal,
        amount: u128,
        sig_hash: &Vec<u8>,
    ) -> (r: Result<(), Error>)
        ensures
            final(self).ledger.balances@ == old(self).ledger.balances@,
            signature_used(old(self).used_signatures@, owner, sig_hash@) <==> r == Err::<(), Error>(
                Error::NotAuthorized,
            ),
            r is Err ==> r == Err::<(), Error>(Error::NotAuthorized),
            r is Err ==> final(self).ledger.allowances@ == old(self).ledger.allowances@ && final(self).used_signatures@ == old(self).used_signatures@,
            r is Ok ==> {
                &&& allowance_of(final(self).ledger.allowances@, token, owner, spender) == amount
                &&& allowances_agree_except(
                    final(self).ledger.allowances@,
                    old(self).ledger.allowances@,
                    token,
                    owner,
                    spender,
                )
                &&& (forall|o2: Principal, h2: Seq<u8>|
                    signature_used(#[trigger] final(self).used_signatures@, o2, h2) == (
                    signature_used(old(self).used_signatures@, o2, h2) || (o2 == owner && h2
                        == sig_hash@)))
            },
    {
        if self.is_signature_used(owner, sig_hash) {
            return Err(Error::NotAuthorized);
        }
        let ghost pre = self.used_signatures@;
        let entry = SignatureEntry { owner, hash: bytes_clone(sig_hash) };
        self.used_signatures.push(entry);
        proof {
            assert forall|o2: Principal, h2: Seq<u8>|
                signature_used(#[trigger] self.used_signatures@, o2, h2) == (signature_used(
                    pre,
                    o2,
                    h2,
                ) || (o2 == owner && h2 == sig_hash@)) by {
                lemma_signature_push(pre, self.used_signatures@.last(), o2, h2);
            }
        }
        self.ledger.set_allowance(token, owner, spender, amount);
        Ok(())
    }

    /// Credit a deposit of `token` to `caller`; the backing pull of the
    /// underlying asset happens at the boundary.
    pub fn deposit(&mut self, token: Principal, amount: u128, caller: Principal) -> (r: Result<
        (),
        Error,
    >)
        ensures
            final(self).used_signatures@ == old(self).used_signatures@,
            final(self).ledger.allowances@ == old(self).ledger.allowances@,
            amount == 0 || balance_of(old(self).ledger.balances@, token, caller) + amount
                > u128::MAX <==> r == Err::<(), Error>(Error::TransferFailed),
            r is Err ==> r == Err::<(), Error>(Error::TransferFailed),
            r is Err ==> final(self).ledger.balances@ == old(self).ledger.balances@,
            r is Ok ==> balance_of(final(self).ledger.balances@, token, caller) == balance_of(
                old(self).ledger.balances@,
                token,
                caller,
            ) + amount && balances_agree_except(
                final(self).ledger.balances@,
                old(self).ledger.balances@,
                token,
                caller,
            ),
    {
        self.ledger.credit(token, caller, amount)
    }

    /// Debit a withdrawal of `token` from `caller`; the backing release
    /// of the underlying asset happens at the boundary.
    pub fn withdraw(&mut self, token: Principal, amount: u128, caller: Principal) -> (r: Result<
        (),
        Error,
    >)
        ensures
            final(self).used_signatures@ == old(self).used_signatures@,
            final(self).ledger.allowances@ == old(self).ledger.allowances@,
            amount == 0 || amount > balance_of(old(self).ledger.balances@, token, caller) <==> r
                == Err::<(), Error>(Error::TransferFailed),
            r is Err ==> r == Err::<(), Error>(Error::TransferFailed),
            r is Err ==> final(self).ledger.balances@ == old(self).ledger.balances@,
            r is Ok ==> balance_of(final(self).ledger.balances@, token, caller) == balance_of(
                old(self).ledger.balances@,
                token,
                caller,
            ) - amount && balances_agree_except(
                final(self).ledger.balances@,
                old(self).ledger.balances@,
                token,
                caller,
            ),
    {
        self.ledger.debit(token, caller, amount)
    }

    /// Let `to` move up to `amount` of `caller`'s wrapped `token`.
    pub fn approve(&mut self, token: Principal, amount: u128, to: Principal, caller: Principal) -> (r:
        Result<(), Error>)
        ensures
            final(self).used_signatures@ == old(self).used_signatures@,
            final(self).ledger.balances@ == old(self).ledger.balances@,
            amount > balance_of(old(self).ledger.balances@, token, caller) <==> r == Err::<
                (),
                Error,
            >(Error::TransferFailed),
            r is Err ==> r == Err::<(), Error>(Error::TransferFailed),
            r is Err ==> final(self).ledger.allowances@ == old(self).ledger.allowances@,
            r is Ok ==> allowance_of(final(self).ledger.allowances@, token, caller, to) == amount
                && allowances_agree_except(
                final(self).ledger.allowances@,
                old(self).ledger.allowances@,
                token,
                caller,
                to,
            ),
    {
        self.ledger.approve(token, caller, to, amount)
    }

    /// Move wrapped `token` units from `caller` to `to` inside the
    /// wrapper.
    pub fn transfer(&mut self, token: Principal, amount: u128, to: Principal, caller: Principal) -> (r:
        Result<(), Error>)
        ensures
            final(self).used_signatures@ == old(self).used_signatures@,
            final(self).ledger.allowances@ == old(self).ledger.allowances@,
            amount == 0 || amount > balance_of(old(self).ledger.balances@, token, caller) || (
            caller != to && balance_of(old(self).ledger.balances@, token, to) + amount
                > u128::MAX) <==> r == Err::<(), Error>(Error::TransferFailed),
            r is Err ==> r == Err::<(), Error>(Error::TransferFailed),
            r is Err ==> final(self).ledger.balances@ == old(self).ledger.balances@,
            r is Ok && caller == to ==> final(self).ledger.balances@ == old(self).ledger.balances@,
            r is Ok && caller != to ==> balance_of(final(self).ledger.balances@, token, caller)
                == balance_of(old(self).ledger.balances@, token, caller) - amount && balance_of(
                final(self).ledger.balances@,
                token,
                to,
            ) == balance_of(old(self).ledger.balances@, token, to) + amount
                && balances_agree_except2(
                final(self).ledger.balances@,
                old(self).ledger.balances@,
                token,
                caller,
                to,
            ),
    {
        self.ledger.transfer(token, caller, to, amount)
    }

    /// Move wrapped `token` units from `from` to `to` on `caller`'s
    /// authority, consuming that much of `from`'s allowance to `caller`.
    pub fn transfer_from(
        &mut self,
        token: Principal,
        amount: u128,
        from: Principal,
        to: Principal,
        caller: Principal,
    ) -> (r: Result<(), Error>)
        ensures
            final(self).used_signatures@ == old(self).used_signatures@,
            amount == 0 || amount > allowance_of(
                old(self).ledger.allowances@,
                token,
                from,
                caller,
            ) || amount > balance_of(old(self).ledger.balances@, token, from) || (from != to
                && balance_of(old(self).ledger.balances@, token, to) + amount > u128::MAX) <==> r
                == Err::<(), Error>(Error::TransferFailed),
            r is Err ==> r == Err::<(), Error>(Error::TransferFailed),
            r is Err ==> final(self).ledger.balances@ == old(self).ledger.balances@ && final(self).ledger.allowances@ == old(self).ledger.allowances@,
            r is Ok ==> allowance_of(final(self).ledger.allowances@, token, from, caller)
                == allowance_of(old(self).ledger.allowances@, token, from, caller) - amount
                && allowances_agree_except(
                final(self).ledger.allowances@,
                old(self).ledger.allowances@,
                token,
                from,
                caller,
            ),
            r is Ok && from == to ==> final(self).ledger.balances@ == old(self).ledger.balances@,
            r is Ok && from != to ==> balance_of(final(self).ledger.balances@, token, from)
                == balance_of(old(self).ledger.balances@, token, from) - amount && balance_of(
                final(self).ledger.balances@,
                token,
                to,
            ) == balance_of(old(self).ledger.balances@, token, to) + amount
                && balances_agree_except2(
                final(self).ledger.balances@,
                old(self).ledger.balances@,
                token,
                from,
                to,
            ),
    {
        self.ledger.transfer_from(token, caller, from, to, amount)
    }

    /// The wrapped balance `user` holds of `token`.
    pub fn get_balance(&self, token: Principal, user: Principal) -> (r: u128)
        ensures
            r == balance_of(self.ledger.balances@, token, user),
    {
        self.ledger.balance(token, user)
    }

    /// The allowance `owner` grants `spender` on `token`.
    pub fn get_allowance(&self, token: Principal, owner: Principal, spender: Principal) -> (r: u128)
        ensures
            r == allowance_of(self.ledger.allowances@, token, owner, spender),
    {
        self.ledger.allowance(token, owner, spender)
    }
}

/// A minimal single-asset token: its own identity keys one slice of a
/// token ledger.
pub struct MockToken {
    pub id: Principal,
    pub ledger: TokenLedger,
}

impl MockToken {
    /// A fresh token with the given identity and no holders.
    pub fn new(id: Principal) -> (r: MockToken)
        ensures
            r.id == id,
            r.ledger.balances@.len() == 0,
            r.ledger.allowances@.len() == 0,
    {
        MockToken { id, ledger: TokenLedger::new() }
    }

    /// Set `to`'s balance to `value` outright.
    pub fn mint(&mut self, to: Principal, value: u128)
        ensures
            final(self).id == old(self).id,
            final(self).ledger.allowances@ == old(self).ledger.allowances@,
            balance_of(final(self).ledger.balances@, old(self).id, to) == value,
            balances_agree_except(
                final(self).ledger.balances@,
                old(self).ledger.balances@,
                old(self).id,
                to,
            ),
    {
        let id = self.id;
        self.ledger.set_balance(id, to, value);
    }

    /// Let `to` move up to `amount` of `caller`'s tokens.
    pub fn approve(&mut self, amount: u128, to: Principal, caller: Principal) -> (r: Result<
        (),
        Error,
    >)
        ensures
            final(self).id == old(self).id,
            final(self).ledger.balances@ == old(self).ledger.balances@,
            amount > balance_of(old(self).ledger.balances@, old(self).id, caller) <==> r == Err::<
                (),
                Error,
            >(Error::TransferFailed),
            r is Err ==> r == Err::<(), Error>(Error::TransferFailed),
            r is Err ==> final(self).ledger.allowances@ == old(self).ledger.allowances@,
            r is Ok ==> allowance_of(final(self).ledger.allowances@, old(self).id, caller, to)
                == amount && allowances_agree_except(
                final(self).ledger.allowances@,
                old(self).ledger.allowances@,
                old(self).id,
                caller,
                to,
            ),
    {
        let id = self.id;
        self.ledger.approve(id, caller, to, amount)
    }

    /// Move tokens from `caller` to `to`.
    pub fn transfer(&mut self, amount: u128, to: Principal, caller: Principal) -> (r: Result<
        (),
        Error,
    >)
        ensures
            final(self).id == old(self).id,
            final(self).ledger.allowances@ == old(self).ledger.allowances@,
            amount == 0 || amount > balance_of(old(self).ledger.balances@, old(self).id, caller)
                || (caller != to && balance_of(old(self).ledger.balances@, old(self).id, to)
                + amount > u128::MAX) <==> r == Err::<(), Error>(Error::TransferFailed),
            r is Err ==> r == Err::<(), Error>(Error::TransferFailed),
            r is Err ==> final(self).ledger.balances@ == old(self).ledger.balances@,
            r is Ok && caller == to ==> final(self).ledger.balances@ == old(self).ledger.balances@,
            r is Ok && caller != to ==> balance_of(
                final(self).ledger.balances@,
                old(self).id,
                caller,
            ) == balance_of(old(self).ledger.balances@, old(self).id, caller) - amount
                && balance_of(final(self).ledger.balances@, old(self).id, to) == balance_of(
                old(self).ledger.balances@,
                old(self).id,
                to,
            ) + amount && balances_agree_except2(
                final(self).ledger.balances@,
                old(self).ledger.balances@,
                old(self).id,
                caller,
                to,
            ),
    {
        let id = self.id;
        self.ledger.transfer(id, caller, to, amount)
    }

    /// Move tokens from `from` to `to` on `spender`'s authority,
    /// consuming that much allowance.
    pub fn transfer_from(
        &mut self,
        spender: Principal,
        from: Principal,
        to: Principal,
        amount: u128,
    ) -> (r: Result<(), Error>)
        ensures
            final(self).id == old(self).id,
            amount == 0 || amount > allowance_of(
                old(self).ledger.allowances@,
                old(self).id,
                from,
                spender,
            ) || amount > balance_of(old(self).ledger.balances@, old(self).id, from) || (from != to
                && balance_of(old(self).ledger.balances@, old(self).id, to) + amount > u128::MAX)
                <==> r == Err::<(), Error>(Error::TransferFailed),
            r is Err ==> r == Err::<(), Error>(Error::TransferFailed),
            r is Err ==> final(self).ledger.balances@ == old(self).ledger.balances@ && final(self).ledger.allowances@ == old(self).ledger.allowances@,
            r is Ok ==> allowance_of(
                final(self).ledger.allowances@,
                old(self).id,
                from,
                spender,
            ) == allowance_of(old(self).ledger.allowances@, old(self).id, from, spender) - amount
                && allowances_agree_except(
                final(self).ledger.allowances@,
                old(self).ledger.allowances@,
                old(self).id,
                from,
                spender,
            ),
            r is Ok && from == to ==> final(self).ledger.balances@ == old(self).ledger.balances@,
            r is Ok && from != to ==> balance_of(
                final(self).ledger.balances@,
                old(self).id,
                from,
            ) == balance_of(old(self).ledger.balances@, old(self).id, from) - amount && balance_of(
                final(self).ledger.balances@,
                old(self).id,
                to,
            ) == balance_of(old(self).ledger.balances@, old(self).id, to) + amount
                && balances_agree_except2(
                final(self).ledger.balances@,
                old(self).ledger.balances@,
                old(self).id,
                from,
                to,
            ),
    {
        let id = self.id;
        self.ledger.transfer_from(id, spender, from, to, amount)
    }

    /// The balance `user` holds.
    pub fn get_balance(&self, user: Principal) -> (r: u128)
        ensures
            r == balance_of(self.ledger.balances@, self.id, user),
    {
        self.ledger.balance(self.id, user)
    }

    /// The allowance `owner` grants `spender`.
    pub fn get_allowance(&self, owner: Principal, spender: Principal) -> (r: u128)
        ensures
            r == allowance_of(self.ledger.allowances@, self.id, owner, spender),
    {
        self.ledger.allowance(self.id, owner, spender)
    }
}

} // verus!
