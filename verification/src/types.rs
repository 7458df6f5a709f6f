//! Base vocabulary of the protocol: principals, swap direction, and the
//! error taxonomy shared by every component.

use vstd::prelude::*;

verus! {

/// A principal (an account or contract identity), reduced to a stable
/// numeric id. The protocol only ever stores principals and compares them
/// for equality; the chain-specific address encoding lives outside the
/// library.
#[derive(Clone, Copy, Debug, PartialEq, Eq, Structural, Hash)]
pub struct Principal {
    pub id: u64,
}

/// Which chain is the source of the swap.
#[derive(Clone, Copy, Debug, PartialEq, Eq, Structural)]
pub enum Path {
    LeftToRight,
    RightToLeft,
}

/// Every way a protocol operation can be rejected. Timing failures are
/// split into "too early" and "too late", and authorization failures name
/// the role that was missing, so callers can tell "wait longer" from
/// "missed the deadline" and "wrong caller" from "not whitelisted".
#[derive(Clone, Copy, Debug, PartialEq, Eq, Structural)]
pub enum Error {
    /// The caller lacks an owner/relayer role required by the operation.
    NotAuthorized,
    /// Only the escrow's executive resolver may perform this action now.
    NotExecutiveResolver,
    /// The caller is not a currently whitelisted resolver.
    NotAuthorizedResolver,
    /// The operation's time window has not opened yet.
    WindowNotOpen,
    /// The operation's time window has already closed.
    WindowClosed,
    /// The revealed secret does not hash to the stored commitment.
    InvalidSecret,
    /// The order's auction has not reached its start time.
    AuctionNotStarted,
    /// No order is stored under the given identifier.
    OrderNotFound,
    /// An order — or an escrow for the same order and leg — is already
    /// stored under the given identifier.
    DuplicateOrder,
    /// The order was already filled; the locked price is never recomputed.
    AlreadyFilled,
    /// The escrow was already drained by a previous withdrawal or
    /// cancellation.
    AlreadySettled,
    /// The posted security deposit is below the configured requirement.
    InsufficientDeposit,
    /// A token-ledger movement could not be performed.
    TransferFailed,
}

/// Byte-exact comparison of two byte strings; the protocol never matches
/// identifiers, hash locks or secrets in any looser way.
pub fn bytes_eq(a: &Vec<u8>, b: &Vec<u8>) -> (r: bool)
    ensures
        r == (a@ == b@),
{
    if a.len() != b.len() {
        return false;
    }
    let mut i: usize = 0;
    while i < a.len()
        invariant
            i <= a@.len(),
            a@.len() == b@.len(),
            forall|j: int| 0 <= j < i ==> a@[j] == b@[j],
        decreases a@.len() - i,
    {
        if a[i] != b[i] {
            return false;
        }
        i += 1;
    }
    proof {
        assert(a@ =~= b@);
    }
    true
}

/// An owned copy of a byte string, byte for byte.
pub fn bytes_clone(v: &Vec<u8>) -> (r: Vec<u8>)
    ensures
        r@ == v@,
{
    let r = v.clone();
    proof {
        assert(r@ =~= v@);
    }
    r
}

} // verus!
