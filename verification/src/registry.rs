//! The resolver authorization registry, held by the relayer component:
//! a whitelist of resolver principals with owner-gated mutation. The
//! public phases of every escrow consult it, so removal takes effect
//! immediately for public-phase rights; an escrow's executive rights are
//! tied to the fixed executive-resolver field captured at deployment and
//! are untouched by the registry.

use vstd::prelude::*;
use crate::types::{Error, Principal};

verus! {

/// The off-chain-visible coordination record a resolver broadcasts to
/// tie an escrow pair to an order before the secret itself is revealed.
/// It carries no authorization effect.
pub struct SignalSecretShare {
    pub escrow_src: Vec<u8>,
    pub escrow_dest: Vec<u8>,
    pub order_id: Vec<u8>,
    pub resolver: Principal,
}

/// The relayer's registry: the owning principal and the currently
/// whitelisted resolvers.
pub struct Relayer {
    pub owner: Principal,
    pub resolvers: Vec<Principal>,
}

impl Relayer {
    /// The whitelist holds no duplicate entries, so removing a principal
    /// once removes it entirely.
    pub open spec fn wf(self) -> bool {
        forall|i: int, j: int|
            0 <= i < j < self.resolvers@.len() ==> self.resolvers@[i] != self.resolvers@[j]
    }

    /// Whether a principal is currently whitelisted.
    pub open spec fn is_whitelisted(self, p: Principal) -> bool {
        self.resolvers@.contains(p)
    }

    /// A fresh registry: the given owner, and no resolver whitelisted.
    pub fn new(owner: Principal) -> (r: Relayer)
        ensures
            r.wf(),
            r.owner == owner,
            forall|p: Principal| !r.is_whitelisted(p),
    {
        Relayer { owner, resolvers: Vec::new() }
    }

    /// Whether `p` is a currently whitelisted resolver; false for any
    /// unknown principal.
    pub fn is_resolver(&self, p: Principal) -> (r: bool)
        ensures
            r == self.is_whitelisted(p),
    {
        let mut i: usize = 0;
        while i < self.resolvers.len()
            invariant
                i <= self.resolvers@.len(),
                forall|j: int| 0 <= j < i ==> self.resolvers@[j] != p,
            decreases self.resolvers@.len() - i,
        {
            if self.resolvers[i].id == p.id {
                return true;
            }
            i += 1;
        }
        false
    }

    /// Whitelist a resolver. Owner-gated; adding an already-whitelisted
    /// resolver is a no-op success.
    pub fn add_resolver(&mut self, caller: Principal, resolver: Principal) -> (r: Result<(), Error>)
        requires
            old(self).wf(),
        ensures
            final(self).wf(),
            final(self).owner == old(self).owner,
            caller != old(self).owner ==> r == Err::<(), Error>(Error::NotAuthorized)
                && final(self).resolvers@ == old(self).resolvers@,
            caller == old(self).owner ==> r == Ok::<(), Error>(())
                && (forall|p: Principal|
                    final(self).is_whitelisted(p) == (old(self).is_whitelisted(p) || p == resolver)),
    {
        if caller.id != self.owner.id {
            return Err(Error::NotAuthorized);
        }
        if !self.is_resolver(resolver) {
            self.resolvers.push(resolver);
            proof {
                assert(forall|p: Principal|
                    self.resolvers@.contains(p) == (old(self).resolvers@.contains(p) || p
                        == resolver)) by {
                    assert(forall|p: Principal| old(self).resolvers@.contains(p)
                        ==> self.resolvers@.contains(p)) by {
                        assert(forall|j: int|
                            0 <= j < old(self).resolvers@.len() ==> self.resolvers@[j] == old(
                                self,
                            ).resolvers@[j]);
                    }
                    assert(self.resolvers@.last() == resolver);
                    assert(self.resolvers@.contains(resolver));
                }
            }
        }
        Ok(())
    }

    /// Remove a resolver from the whitelist. Owner-gated; removing an
    /// absent resolver is a no-op success. The removed principal
    /// immediately loses all public-phase authorization.
    pub fn remove_resolver(&mut self, caller: Principal, resolver: Principal) -> (r: Result<
        (),
        Error,
    >)
        requires
            old(self).wf(),
        ensures
            final(self).wf(),
            final(self).owner == old(self).owner,
            caller != old(self).owner ==> r == Err::<(), Error>(Error::NotAuthorized)
                && final(self).resolvers@ == old(self).resolvers@,
            caller == old(self).owner ==> r == Ok::<(), Error>(())
                && (forall|p: Principal|
                    final(self).is_whitelisted(p) == (old(self).is_whitelisted(p) && p != resolver)),
    {
        if caller.id != self.owner.id {
            return Err(Error::NotAuthorized);
        }
        let ghost pre = self.resolvers@;
        let mut i: usize = 0;
        while i < self.resolvers.len()
            invariant
                i <= self.resolvers@.len(),
                caller == old(self).owner,
                self.owner == old(self).owner,
                self.resolvers@ == pre,
                pre == old(self).resolvers@,
                forall|a: int, b: int| 0 <= a < b < pre.len() ==> pre[a] != pre[b],
                forall|j: int| 0 <= j < i ==> self.resolvers@[j] != resolver,
            decreases self.resolvers@.len() - i,
        {
            if self.resolvers[i].id == resolver.id {
                self.resolvers.remove(i);
                proof {
                    assert(self.resolvers@ == pre.subrange(0, i as int) + pre.subrange(
                        i as int + 1,
                        pre.len() as int,
                    ));
                    assert forall|p: Principal|
                        self.resolvers@.contains(p) == (pre.contains(p) && p != resolver) by {
                        lemma_remove_at_contains(pre, i as int, p);
                    }
                    assert(forall|a: int, b: int|
                        0 <= a < b < self.resolvers@.len() ==> self.resolvers@[a]
                            != self.resolvers@[b]) by {
                        assert(forall|a: int|
                            0 <= a < self.resolvers@.len() ==> (self.resolvers@[a] == if a < i {
                                pre[a]
                            } else {
                                pre[a + 1]
                            }));
                    }
                }
                return Ok(());
            }
            i += 1;
        }
        proof {
            assert(!pre.contains(resolver));
        }
        Ok(())
    }

    /// Hand the registry, and with it every owner-gated right, to a new
    /// owner. Owner-gated.
    pub fn transfer_ownership(&mut self, caller: Principal, new_owner: Principal) -> (r: Result<
        (),
        Error,
    >)
        requires
            old(self).wf(),
        ensures
            final(self).wf(),
            final(self).resolvers@ == old(self).resolvers@,
            caller != old(self).owner ==> r == Err::<(), Error>(Error::NotAuthorized)
                && final(self).owner == old(self).owner,
            caller == old(self).owner ==> r == Ok::<(), Error>(()) && final(self).owner
                == new_owner,
    {
        if caller.id != self.owner.id {
            return Err(Error::NotAuthorized);
        }
        self.owner = new_owner;
        Ok(())
    }

    /// Build the secret-sharing coordination record. Resolver-gated:
    /// only a currently whitelisted resolver may broadcast it. The record
    /// is handed back for the surrounding infrastructure to publish; no
    /// protocol state changes.
    pub fn signal_share_secret(
        &self,
        caller: Principal,
        escrow_src: Vec<u8>,
        escrow_dest: Vec<u8>,
        order_id: Vec<u8>,
    ) -> (r: Result<SignalSecretShare, Error>)
        ensures
            !self.is_whitelisted(caller) ==> r == Err::<SignalSecretShare, Error>(
                Error::NotAuthorizedResolver,
            ),
            self.is_whitelisted(caller) ==> r is Ok && r.unwrap().escrow_src@ == escrow_src@
                && r.unwrap().escrow_dest@ == escrow_dest@ && r.unwrap().order_id@ == order_id@
                && r.unwrap().resolver == caller,
    {
        if !self.is_resolver(caller) {
            return Err(Error::NotAuthorizedResolver);
        }
        Ok(SignalSecretShare { escrow_src, escrow_dest, order_id, resolver: caller })
    }
}

/// Removing the element at `i` keeps exactly the other elements: a
/// principal is in the remainder iff it is in the original at some index
/// other than `i`.
proof fn lemma_remove_at_contains(s: Seq<Principal>, i: int, p: Principal)
    requires
        0 <= i < s.len(),
        forall|a: int, b: int| 0 <= a < b < s.len() ==> s[a] != s[b],
    ensures
        (s.subrange(0, i) + s.subrange(i + 1, s.len() as int)).contains(p) == (s.contains(p) && p
            != s[i]),
{
    let rest = s.subrange(0, i) + s.subrange(i + 1, s.len() as int);
    if rest.contains(p) {
        let k = choose|k: int| 0 <= k < rest.len() && rest[k] == p;
        if k < i {
            assert(s[k] == p);
        } else {
            assert(s[k + 1] == p);
        }
        assert(s.contains(p));
        assert(p != s[i]);
    }
    if s.contains(p) && p != s[i] {
        let k = choose|k: int| 0 <= k < s.len() && s[k] == p;
        if k < i {
            assert(rest[k] == p);
        } else {
            assert(rest[k - 1] == p);
        }
        assert(rest.contains(p));
    }
}

} // verus!
