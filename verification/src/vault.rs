//! The vault manager: one custodial vault bound to one freshly declared
//! token class. It mints tokens of that class, takes deposits into the
//! vault, and hands vaulted tokens back out by identifier.

use vstd::prelude::*;

use crate::registry::Registry;
use crate::registry::random_u128;
use crate::token::AuthRule;
use crate::token::Bucket;
use crate::token::Caller;
use crate::token::ClassAddress;
use crate::token::Token;
use crate::token::TokenClass;
use crate::token::TokenId;
use crate::token::VaultError;
use crate::token::is_authorized;
use crate::token::rule_permits;

verus! {

/// The component: a token class, the registry of its issued identifiers,
/// and the vault of tokens currently in its custody.
pub struct SimpleNFT {
    registry: Registry,
    vault: Vec<Token>,
    class: TokenClass,
}

impl SimpleNFT {
    /// The declared token class, metadata and authorization rules included.
    pub closed spec fn class_spec(self) -> TokenClass {
        self.class
    }

    /// The identity handle of the manager's token class.
    pub open spec fn class_address(self) -> ClassAddress {
        self.class_spec().address
    }

    /// The vaulted tokens, in the order they entered the vault.
    pub closed spec fn vault_tokens(self) -> Seq<Token> {
        self.vault@
    }

    /// How many tokens the vault currently holds.
    pub open spec fn vault_count(self) -> nat {
        self.vault_tokens().len()
    }

    /// Whether some vaulted token carries the given identifier value.
    pub open spec fn vault_contains(self, v: u128) -> bool {
        exists|i: int|
            0 <= i < self.vault_tokens().len() && (#[trigger] self.vault_tokens()[i]).id.value == v
    }

    /// The set of every identifier the manager's registry ever issued.
    pub closed spec fn issued(self) -> Set<u128> {
        self.registry.issued()
    }

    /// The manager's invariant: the registry ledger is well formed; every
    /// vaulted token belongs to the manager's class and carries an issued
    /// identifier; no two vaulted tokens share an identifier; and the class
    /// keeps the authorization rules it was declared with — minting only by
    /// the component, burning open to any holder.
    pub closed spec fn inv(self) -> bool {
        &&& self.registry.wf()
        &&& forall|i: int|
            0 <= i < self.vault_tokens().len() ==> (#[trigger] self.vault_tokens()[i]).class
                == self.class_address()
        &&& forall|i: int|
            0 <= i < self.vault_tokens().len() ==> self.issued().contains(
                (#[trigger] self.vault_tokens()[i]).id.value,
            )
        &&& forall|i: int, j: int|
            0 <= i < j < self.vault_tokens().len() ==> self.vault_tokens()[i].id.value
                != self.vault_tokens()[j].id.value
        &&& self.class_spec().mint_rule == AuthRule::ComponentOnly
        &&& self.class_spec().burn_rule == AuthRule::AllowAll
    }

    /// Declares a fresh token class — named "SimpleNFT", symbol "SNFT",
    /// minting restricted to the component itself, burning open to any
    /// holder — and returns a manager holding an empty vault bound to it.
    /// Each call declares its own independent class and vault.
    pub fn instantiate_component() -> (r: SimpleNFT)
        ensures
            r.inv(),
            r.vault_tokens() == Seq::<Token>::empty(),
            r.issued() == Set::<u128>::empty(),
            r.class_spec().name@ == "SimpleNFT"@,
            r.class_spec().symbol@ == "SNFT"@,
            r.class_spec().mint_rule == AuthRule::ComponentOnly,
            r.class_spec().burn_rule == AuthRule::AllowAll,
    {
        let address = ClassAddress { value: random_u128() };
        let class = TokenClass {
            address,
            name: "SimpleNFT",
            symbol: "SNFT",
            mint_rule: AuthRule::ComponentOnly,
            burn_rule: AuthRule::AllowAll,
        };
        SimpleNFT { registry: Registry::new(), vault: Vec::new(), class }
    }

    /// Mints one new token of the manager's class and returns it detached,
    /// in a single-token container; the vault is untouched. The minted
    /// identifier was never issued before and is recorded as issued. The
    /// only failure is the identifier space yielding no fresh identifier,
    /// which leaves the manager unchanged; on a manager that has issued
    /// nothing yet, no draw can collide and the mint is certain to succeed.
    pub fn mint_nft(&mut self) -> (r: Result<Bucket, VaultError>)
        requires
            old(self).inv(),
        ensures
            final(self).inv(),
            final(self).class_spec() == old(self).class_spec(),
            final(self).vault_tokens() == old(self).vault_tokens(),
            old(self).issued() == Set::<u128>::empty() ==> r is Ok,
            match r {
                Ok(b) => {
                    &&& b.wf()
                    &&& b.spec_class() == old(self).class_address()
                    &&& b.spec_tokens().len() == 1
                    &&& b.spec_tokens()[0].class == old(self).class_address()
                    &&& !old(self).issued().contains(b.spec_tokens()[0].id.value)
                    &&& !final(self).vault_contains(b.spec_tokens()[0].id.value)
                    &&& final(self).issued() == old(self).issued().insert(
                        b.spec_tokens()[0].id.value,
                    )
                },
                Err(e) => e == VaultError::IdentifierSpaceExhausted && *final(self) == *old(self),
            },
    {
        let authorized = is_authorized(&self.class.mint_rule, &Caller::Component);
        assert(authorized);
        match self.registry.allocate_id() {
            Ok(id) => {
                proof {
                    assert(self.vault_tokens() == old(self).vault_tokens());
                    assert forall|i: int|
                        0 <= i < self.vault_tokens().len() implies {
                        &&& self.issued().contains((#[trigger] self.vault_tokens()[i]).id.value)
                        &&& self.vault_tokens()[i].class == self.class_address()
                    } by {
                        assert(self.vault_tokens()[i] == old(self).vault_tokens()[i]);
                        assert(old(self).issued().contains(
                            old(self).vault_tokens()[i].id.value,
                        ));
                        assert(old(self).vault_tokens()[i].class == old(self).class_address());
                    };
                    assert forall|i: int, j: int|
                        0 <= i < j < self.vault_tokens().len() implies self.vault_tokens()[i].id.value
                        != self.vault_tokens()[j].id.value by {
                        assert(old(self).vault_tokens()[i].id.value != old(
                            self,
                        ).vault_tokens()[j].id.value);
                    };
                }
                let token = Token { class: self.class.address, id };
                Ok(Bucket::from_single(self.class.address, token))
            },
            Err(e) => Err(e),
        }
    }

    /// Moves every token of the given container into the vault. A container
    /// of a different class is rejected whole with `WrongResourceType` and
    /// nothing changes; on success the vault grows by exactly the container's
    /// tokens and the container is consumed.
    pub fn deposit_nft(&mut self, nft: Bucket) -> (r: Result<(), VaultError>)
        requires
            old(self).inv(),
            nft.wf(),
            nft.spec_class() == old(self).class_address() ==> forall|i: int|
                0 <= i < nft.spec_tokens().len() ==> old(self).issued().contains(
                    (#[trigger] nft.spec_tokens()[i]).id.value,
                ) && !old(self).vault_contains(nft.spec_tokens()[i].id.value),
        ensures
            final(self).inv(),
            final(self).class_spec() == old(self).class_spec(),
            final(self).issued() == old(self).issued(),
            (nft.spec_class() != old(self).class_address()) <==> r is Err,
            r is Err ==> r == Err::<(), VaultError>(VaultError::WrongResourceType) && *final(self)
                == *old(self),
            r is Ok ==> final(self).vault_tokens() == old(self).vault_tokens()
                + nft.spec_tokens(),
            r is Ok ==> final(self).vault_count() == old(self).vault_count()
                + nft.spec_tokens().len(),
    {
        if !(nft.resource_address() == self.class.address) {
            return Err(VaultError::WrongResourceType);
        }
        let ghost inc = nft.spec_tokens();
        let mut incoming = nft.take_all();
        self.vault.append(&mut incoming);
        proof {
            let n: int = old(self).vault_tokens().len() as int;
            assert(self.vault_tokens() == old(self).vault_tokens() + inc);
            assert forall|i: int, j: int|
                0 <= i < j < self.vault_tokens().len() implies self.vault_tokens()[i].id.value
                != self.vault_tokens()[j].id.value by {
                if i < n && j >= n {
                    assert(old(self).vault_contains(old(self).vault_tokens()[i].id.value));
                    assert(old(self).issued().contains(inc[j - n].id.value));
                } else if i >= n {
                    assert(inc[i - n].id.value != inc[j - n].id.value);
                } else {
                    assert(old(self).vault_tokens()[i].id.value != old(
                        self,
                    ).vault_tokens()[j].id.value);
                }
            };
            assert forall|i: int|
                0 <= i < self.vault_tokens().len() implies (
            #[trigger] self.vault_tokens()[i]).class == self.class_address() && self.issued(
            ).contains(self.vault_tokens()[i].id.value) by {
                if i >= n {
                    assert(inc[i - n].class == nft.spec_class());
                    assert(old(self).issued().contains(inc[i - n].id.value));
                } else {
                    assert(old(self).vault_tokens()[i].class == old(self).class_address());
                    assert(old(self).issued().contains(old(self).vault_tokens()[i].id.value));
                }
            };
        }
        Ok(())
    }

    /// Removes the vaulted token with the given identifier and returns it
    /// in a single-token container. An identifier not currently vaulted —
    /// never deposited, already withdrawn, or never issued — is answered
    /// with `NotFound` and nothing changes.
    #[verifier::loop_isolation(false)]
    pub fn withdraw_nft(&mut self, nft_id: TokenId) -> (r: Result<Bucket, VaultError>)
        requires
            old(self).inv(),
        ensures
            final(self).inv(),
            final(self).class_spec() == old(self).class_spec(),
            final(self).issued() == old(self).issued(),
            old(self).vault_contains(nft_id.value) <==> r is Ok,
            r is Err ==> r == Err::<Bucket, VaultError>(VaultError::NotFound) && *final(self)
                == *old(self),
            r is Ok ==> exists|i: int|
                0 <= i < old(self).vault_tokens().len() && (#[trigger] old(
                    self,
                ).vault_tokens()[i]).id.value == nft_id.value && final(self).vault_tokens() == old(
                    self,
                ).vault_tokens().remove(i),
            r is Ok ==> {
                &&& r.unwrap().wf()
                &&& r.unwrap().spec_class() == old(self).class_address()
                &&& r.unwrap().spec_tokens().len() == 1
                &&& r.unwrap().spec_tokens()[0].id == nft_id
                &&& r.unwrap().spec_tokens()[0].class == old(self).class_address()
                &&& final(self).vault_count() + 1 == old(self).vault_count()
            },
            forall|i: int|
                0 <= i < old(self).vault_tokens().len() && (#[trigger] old(
                    self,
                ).vault_tokens()[i]).id.value == nft_id.value ==> r is Ok && r.unwrap().spec_tokens()
                    == seq![old(self).vault_tokens()[i]],
    {
        let mut k: usize = 0;
        while k < self.vault.len()
            invariant
                *self == *old(self),
                k <= self.vault.len(),
                forall|i: int| 0 <= i < k ==> (#[trigger] self.vault@[i]).id.value != nft_id.value,
            decreases self.vault.len() - k,
        {
            if self.vault[k].id.value == nft_id.value {
                let token = self.vault.remove(k);
                proof {
                    assert forall|i: int|
                        0 <= i < old(self).vault_tokens().len() && (#[trigger] old(
                            self,
                        ).vault_tokens()[i]).id.value == nft_id.value implies i == k by {
                        if i < k {
                            assert(old(self).vault_tokens()[i].id.value != nft_id.value);
                        }
                    };
                }
                return Ok(Bucket::from_single(self.class.address, token));
            }
            k += 1;
        }
        Err(VaultError::NotFound)
    }

    /// The identity handle of the manager's token class. A pure query: it
    /// never fails and changes nothing.
    pub fn get_nft_resource_address(&self) -> (r: ClassAddress)
        ensures
            r == self.class_address(),
    {
        self.class.address
    }

    /// How many tokens the vault currently holds. A pure query.
    pub fn vault_size(&self) -> (r: usize)
        ensures
            r == self.vault_count(),
    {
        self.vault.len()
    }

    /// Whether the manager's burn capability permits the given caller.
    /// The class is declared with burning open to any holder; the manager
    /// itself never burns — the capability belongs to whoever holds a token.
    pub fn burn_is_authorized(&self, caller: &Caller) -> (r: bool)
        ensures
            r == rule_permits(self.class_spec().burn_rule, *caller),
    {
        is_authorized(&self.class.burn_rule, caller)
    }
}

} // verus!
