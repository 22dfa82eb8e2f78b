//! The library's general laws, stated over the managers' public views and
//! proved from the facts the operations' contracts establish.

use vstd::prelude::*;

use crate::token::Token;
use crate::vault::SimpleNFT;

verus! {

/// Identifier uniqueness: no two tokens a manager ever mints carry the same
/// identifier, whatever operations come between the two mints. A mint's
/// contract records the minted identifier as issued and returns one not yet
/// issued, and every operation's contract leaves the issued set equal or
/// grown; so a token minted earlier and a token minted later always differ.
pub proof fn lemma_minted_ids_distinct(
    earlier: SimpleNFT,
    later: SimpleNFT,
    first: Token,
    second: Token,
)
    requires
        earlier.issued().contains(first.id.value),
        earlier.issued().subset_of(later.issued()),
        !later.issued().contains(second.id.value),
    ensures
        first.id.value != second.id.value,
{
    assert(later.issued().contains(first.id.value));
}

/// Round trip: minting a token, depositing it, then withdrawing it by its
/// identifier yields the very token that was minted — same identifier, same
/// class, same (empty) payload. Depositing the minted single-token container
/// appends its token to the vault, and withdrawing by its identifier returns
/// the unique vaulted token that carries it.
pub proof fn lemma_round_trip(
    before: SimpleNFT,
    after: SimpleNFT,
    minted: Token,
    withdrawn: Token,
)
    requires
        after.vault_tokens() == before.vault_tokens() + seq![minted],
        forall|i: int|
            0 <= i < after.vault_tokens().len() && (#[trigger] after.vault_tokens()[i]).id.value
                == minted.id.value ==> withdrawn == after.vault_tokens()[i],
    ensures
        withdrawn == minted,
{
    assert(after.vault_tokens()[after.vault_tokens().len() - 1] == minted);
}

} // verus!

