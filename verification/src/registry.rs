//! The token registry: the ledger of every identifier ever issued for one
//! token class. It allocates fresh identifiers and guarantees that no
//! identifier is ever issued twice, burned or not.

use vstd::prelude::*;

use crate::token::TokenId;
use crate::token::VaultError;

verus! {

/// How many random draws an allocation makes before giving the identifier
/// space up as exhausted.
pub const MAX_ALLOCATION_ATTEMPTS: usize = 64;

/// Relies on rand::random: draws a value from the thread-local generator;
/// nothing is promised of the result.
#[verifier::external_body]
pub(crate) fn random_u128() -> u128 {
    rand::random::<u128>()
}

/// The ledger of issued identifiers for one token class. An identifier,
/// once issued, stays on the ledger forever, so it can never be reissued —
/// not even after the token that carried it is burned.
pub struct Registry {
    issued: Vec<u128>,
}

impl Registry {
    /// The issued identifiers in the order they were allocated.
    pub closed spec fn issued_seq(self) -> Seq<u128> {
        self.issued@
    }

    /// The set of every identifier ever issued.
    pub open spec fn issued(self) -> Set<u128> {
        self.issued_seq().to_set()
    }

    /// Well-formedness: the ledger lists each issued identifier once.
    pub open spec fn wf(self) -> bool {
        forall|i: int, j: int|
            0 <= i < j < self.issued_seq().len() ==> self.issued_seq()[i] != self.issued_seq()[j]
    }

    /// An empty ledger: nothing has been issued yet.
    pub fn new() -> (r: Registry)
        ensures
            r.wf(),
            r.issued() == Set::<u128>::empty(),
    {
        let r = Registry { issued: Vec::new() };
        proof {
            assert(r.issued() =~= Set::<u128>::empty());
        }
        r
    }

    /// Whether the given identifier value was ever issued.
    #[verifier::loop_isolation(false)]
    pub fn was_issued(&self, v: u128) -> (r: bool)
        ensures
            r == self.issued().contains(v),
    {
        let mut k: usize = 0;
        while k < self.issued.len()
            invariant
                k <= self.issued.len(),
                forall|i: int| 0 <= i < k ==> self.issued@[i] != v,
            decreases self.issued.len() - k,
        {
            if self.issued[k] == v {
                return true;
            }
            k += 1;
        }
        proof {
            assert(!self.issued_seq().contains(v));
        }
        false
    }

    /// Records the candidate as issued if it is new; reports whether it was.
    /// This is the whole decision of an allocation once the random draw is
    /// fixed: a never-issued candidate is claimed, an issued one is refused
    /// and the ledger is left unchanged.
    pub fn try_claim(&mut self, candidate: u128) -> (r: bool)
        requires
            old(self).wf(),
        ensures
            final(self).wf(),
            r == !old(self).issued().contains(candidate),
            r ==> final(self).issued() == old(self).issued().insert(candidate),
            !r ==> *final(self) == *old(self),
    {
        if self.was_issued(candidate) {
            false
        } else {
            self.issued.push(candidate);
            proof {
                assert(self.issued_seq() == old(self).issued_seq().push(candidate));
                assert forall|i: int, j: int|
                    0 <= i < j < self.issued_seq().len() implies self.issued_seq()[i]
                    != self.issued_seq()[j] by {
                    if j == self.issued_seq().len() - 1 {
                        assert(old(self).issued_seq().contains(old(self).issued_seq()[i]));
                    }
                }
                assert forall|v: u128|
                    self.issued_seq().contains(v) <==> (old(self).issued_seq().contains(v) || v
                        == candidate) by {
                    if old(self).issued_seq().contains(v) {
                        let i = choose|i: int|
                            0 <= i < old(self).issued_seq().len() && old(self).issued_seq()[i]
                                == v;
                        assert(self.issued_seq()[i] == v);
                    }
                    if v == candidate {
                        assert(self.issued_seq()[self.issued_seq().len() - 1] == candidate);
                    }
                    if self.issued_seq().contains(v) {
                        let i = choose|i: int|
                            0 <= i < self.issued_seq().len() && self.issued_seq()[i] == v;
                        if i < old(self).issued_seq().len() {
                            assert(old(self).issued_seq()[i] == v);
                        }
                    }
                };
                assert(self.issued() =~= old(self).issued().insert(candidate));
            }
            true
        }
    }

    /// Allocates a fresh identifier: one never issued before for this class.
    /// Each attempt draws a random 128-bit value and claims it if it is new;
    /// if every attempt collides with an already-issued identifier, the
    /// allocation reports the identifier space as exhausted and the ledger
    /// is unchanged. On an empty ledger no draw can collide, so allocation
    /// is then certain to succeed.
    #[verifier::loop_isolation(false)]
    pub fn allocate_id(&mut self) -> (r: Result<TokenId, VaultError>)
        requires
            old(self).wf(),
        ensures
            final(self).wf(),
            old(self).issued() == Set::<u128>::empty() ==> r is Ok,
            match r {
                Ok(id) => !old(self).issued().contains(id.value) && final(self).issued() == old(
                    self,
                ).issued().insert(id.value),
                Err(e) => e == VaultError::IdentifierSpaceExhausted && *final(self) == *old(self),
            },
    {
        let mut attempts: usize = 0;
        while attempts < MAX_ALLOCATION_ATTEMPTS
            invariant
                *self == *old(self),
                attempts > 0 ==> !(old(self).issued() == Set::<u128>::empty()),
            decreases MAX_ALLOCATION_ATTEMPTS - attempts,
        {
            let candidate = random_u128();
            if self.try_claim(candidate) {
                return Ok(TokenId { value: candidate });
            }
            attempts += 1;
        }
        Err(VaultError::IdentifierSpaceExhausted)
    }
}

} // verus!
