//! The basic values of the library: token identifiers, class addresses,
//! authorization rules, tokens, buckets, and the errors the manager's
//! operations can return.

use vstd::prelude::*;

verus! {

/// A unique identifier of one token within its class: a 128-bit value drawn
/// at mint time and never reissued.
#[derive(Clone, Copy, PartialEq, Eq, Structural, Debug)]
pub struct TokenId {
    pub value: u128,
}

/// The identity handle of a token class: the address under which the class
/// was declared.
#[derive(Clone, Copy, PartialEq, Eq, Structural, Debug)]
pub struct ClassAddress {
    pub value: u128,
}

/// The identity a caller presents to an authorization rule: the component
/// that owns the class, or an outside holder of a token.
#[derive(Clone, Copy, PartialEq, Eq, Structural, Debug)]
pub enum Caller {
    Component,
    Holder,
}

/// An authorization predicate attached to a capability of a token class.
#[derive(Clone, Copy, PartialEq, Eq, Structural, Debug)]
pub enum AuthRule {
    /// Every caller is permitted.
    AllowAll,
    /// No caller is permitted.
    DenyAll,
    /// Only the component that owns the class is permitted.
    ComponentOnly,
}

/// What an authorization rule answers for a given caller.
pub open spec fn rule_permits(rule: AuthRule, caller: Caller) -> bool {
    match rule {
        AuthRule::AllowAll => true,
        AuthRule::DenyAll => false,
        AuthRule::ComponentOnly => caller is Component,
    }
}

/// Evaluates an authorization rule for a caller.
pub fn is_authorized(rule: &AuthRule, caller: &Caller) -> (r: bool)
    ensures
        r == rule_permits(*rule, *caller),
{
    match rule {
        AuthRule::AllowAll => true,
        AuthRule::DenyAll => false,
        AuthRule::ComponentOnly => matches!(caller, Caller::Component),
    }
}

/// A declared token class: its address, its display metadata, and the
/// authorization rules of its mint and burn capabilities. Created once at
/// instantiation and immutable thereafter.
#[derive(Clone, Copy, Debug)]
pub struct TokenClass {
    pub address: ClassAddress,
    pub name: &'static str,
    pub symbol: &'static str,
    pub mint_rule: AuthRule,
    pub burn_rule: AuthRule,
}

/// One token instance: its class, its identifier, and no further payload.
/// A token's data is fixed at mint and never rewritten.
#[derive(Clone, Copy, PartialEq, Eq, Structural, Debug)]
pub struct Token {
    pub class: ClassAddress,
    pub id: TokenId,
}

/// Every error a manager operation can return.
#[derive(Clone, Copy, PartialEq, Eq, Structural, Debug)]
pub enum VaultError {
    /// A deposited container belongs to a different token class.
    WrongResourceType,
    /// The requested identifier is not present in the vault.
    NotFound,
    /// The identifier space yielded no fresh identifier.
    IdentifierSpaceExhausted,
}

/// A detached, transferable container of tokens of one class, used to move
/// tokens between custody domains. Buckets are only created by the library
/// itself, so every bucket in circulation holds distinct, genuinely minted
/// tokens of its declared class.
pub struct Bucket {
    class: ClassAddress,
    tokens: Vec<Token>,
}

impl Bucket {
    /// The class the container was created for.
    pub closed spec fn spec_class(self) -> ClassAddress {
        self.class
    }

    /// The tokens the container currently holds, in order.
    pub closed spec fn spec_tokens(self) -> Seq<Token> {
        self.tokens@
    }

    /// Well-formedness: every held token belongs to the container's class,
    /// and no two held tokens share an identifier.
    pub open spec fn wf(self) -> bool {
        &&& forall|i: int|
            0 <= i < self.spec_tokens().len() ==> (#[trigger] self.spec_tokens()[i]).class
                == self.spec_class()
        &&& forall|i: int, j: int|
            0 <= i < j < self.spec_tokens().len() ==> self.spec_tokens()[i].id.value
                != self.spec_tokens()[j].id.value
    }

    /// Whether some held token carries the given identifier value.
    pub open spec fn holds_id(self, v: u128) -> bool {
        exists|i: int|
            0 <= i < self.spec_tokens().len() && (#[trigger] self.spec_tokens()[i]).id.value == v
    }

    /// Builds a container around one freshly minted token.
    pub(crate) fn from_single(class: ClassAddress, token: Token) -> (b: Bucket)
        requires
            token.class == class,
        ensures
            b.spec_class() == class,
            b.spec_tokens() == seq![token],
            b.wf(),
    {
        let mut tokens: Vec<Token> = Vec::new();
        tokens.push(token);
        Bucket { class, tokens }
    }

    /// The class the container was created for.
    pub fn resource_address(&self) -> (r: ClassAddress)
        ensures
            r == self.spec_class(),
    {
        self.class
    }

    /// How many tokens the container holds.
    pub fn amount(&self) -> (r: usize)
        ensures
            r == self.spec_tokens().len(),
    {
        self.tokens.len()
    }

    /// The identifiers of the held tokens, in the container's order.
    pub fn non_fungible_local_ids(&self) -> (r: Vec<TokenId>)
        ensures
            r@.len() == self.spec_tokens().len(),
            forall|i: int| 0 <= i < r@.len() ==> r@[i] == self.spec_tokens()[i].id,
    {
        let mut ids: Vec<TokenId> = Vec::new();
        let mut k: usize = 0;
        while k < self.tokens.len()
            invariant
                k <= self.tokens.len(),
                ids@.len() == k,
                forall|i: int| 0 <= i < k ==> ids@[i] == self.tokens@[i].id,
            decreases self.tokens.len() - k,
        {
            ids.push(self.tokens[k].id);
            k += 1;
        }
        ids
    }

    /// Merges another container of the same class into this one; a container
    /// of a different class is rejected whole.
    pub fn put(&mut self, other: Bucket) -> (r: Result<(), VaultError>)
        requires
            old(self).wf(),
            other.wf(),
            other.spec_class() == old(self).spec_class() ==> forall|i: int, j: int|
                0 <= i < old(self).spec_tokens().len() && 0 <= j < other.spec_tokens().len()
                    ==> (#[trigger] old(self).spec_tokens()[i]).id.value != (
                #[trigger] other.spec_tokens()[j]).id.value,
        ensures
            final(self).wf(),
            final(self).spec_class() == old(self).spec_class(),
            (other.spec_class() != old(self).spec_class()) <==> r is Err,
            r is Err ==> r == Err::<(), VaultError>(VaultError::WrongResourceType) && *final(self)
                == *old(self),
            r is Ok ==> final(self).spec_tokens() == old(self).spec_tokens()
                + other.spec_tokens(),
    {
        if !(other.class == self.class) {
            return Err(VaultError::WrongResourceType);
        }
        let ghost inc = other.spec_tokens();
        let Bucket { class: _, tokens: mut incoming } = other;
        self.tokens.append(&mut incoming);
        proof {
            let n: int = old(self).spec_tokens().len() as int;
            assert(self.spec_tokens() == old(self).spec_tokens() + inc);
            assert forall|i: int, j: int|
                0 <= i < j < self.spec_tokens().len() implies self.spec_tokens()[i].id.value
                != self.spec_tokens()[j].id.value by {
                if i < n && j >= n {
                    assert(old(self).spec_tokens()[i].id.value != inc[j - n].id.value);
                } else if i >= n {
                    assert(inc[i - n].id.value != inc[j - n].id.value);
                } else {
                    assert(old(self).spec_tokens()[i].id.value != old(
                        self,
                    ).spec_tokens()[j].id.value);
                }
            };
            assert forall|i: int|
                0 <= i < self.spec_tokens().len() implies (
            #[trigger] self.spec_tokens()[i]).class == self.spec_class() by {
                if i >= n {
                    assert(inc[i - n].class == self.spec_class());
                } else {
                    assert(old(self).spec_tokens()[i].class == self.spec_class());
                }
            };
        }
        Ok(())
    }

    /// Removes and returns the held token with the given identifier, or
    /// leaves the container unchanged if no held token carries it.
    #[verifier::loop_isolation(false)]
    pub fn take_by_id(&mut self, id: &TokenId) -> (r: Option<Token>)
        requires
            old(self).wf(),
        ensures
            final(self).wf(),
            final(self).spec_class() == old(self).spec_class(),
            (r is Some) <==> old(self).holds_id(id.value),
            r is None ==> *final(self) == *old(self),
            r is Some ==> exists|i: int|
                0 <= i < old(self).spec_tokens().len() && (#[trigger] old(
                    self,
                ).spec_tokens()[i]).id.value == id.value && r == Some(old(self).spec_tokens()[i])
                    && final(self).spec_tokens() == old(self).spec_tokens().remove(i),
            forall|i: int|
                0 <= i < old(self).spec_tokens().len() && (#[trigger] old(
                    self,
                ).spec_tokens()[i]).id.value == id.value ==> r == Some(old(self).spec_tokens()[i]),
    {
        let mut k: usize = 0;
        while k < self.tokens.len()
            invariant
                *self == *old(self),
                k <= self.tokens.len(),
                forall|i: int| 0 <= i < k ==> (#[trigger] self.tokens@[i]).id.value != id.value,
            decreases self.tokens.len() - k,
        {
            if self.tokens[k].id.value == id.value {
                let token = self.tokens.remove(k);
                return Some(token);
            }
            k += 1;
        }
        None
    }

    /// Empties the container, handing every held token out in order.
    pub fn take_all(self) -> (r: Vec<Token>)
        ensures
            r@ == self.spec_tokens(),
    {
        let Bucket { class: _, tokens } = self;
        tokens
    }
}

} // verus!
