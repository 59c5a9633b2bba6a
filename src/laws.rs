use vstd::prelude::*;
use crate::contract::{Balance, ContractState};
use crate::error::PSP34Error;
use crate::ledger::{AccountId, lemma_owned_append, owned_by};

verus! {

/// A paid mint of a positive quantity that fits under the cap succeeds; it
/// issues the next identifiers to the recipient in ascending order, raises
/// the last identifier by exactly the quantity, keeps the state valid and
/// leaves every other account's tokens alone.
pub proof fn law_mint_issues_next_ids(s: ContractState, transferred: Balance, to: AccountId, quantity: u64)
    requires
        s.valid(),
        quantity > 0,
        transferred == quantity * s.price_per_mint,
        s.last_token_id + quantity <= s.max_supply,
    ensures
        s.mint_outcome(transferred, quantity) == Ok::<(), PSP34Error>(()),
        s.minted(to, quantity).valid(),
        s.minted(to, quantity).last_token_id == s.last_token_id + quantity,
        owned_by(s.minted(to, quantity).tokens, to) == owned_by(s.tokens, to) + Seq::new(
            quantity as nat,
            |k: int| (s.last_token_id + 1 + k) as u64,
        ),
        forall|other: AccountId|
            other != to ==> #[trigger] owned_by(s.minted(to, quantity).tokens, other) == owned_by(s.tokens, other),
{
    let batch = s.batch(to, quantity);
    lemma_owned_append(s.tokens, batch, to);
    assert(batch.map_values(|e: (u64, AccountId)| e.0) =~= Seq::new(
        quantity as nat,
        |k: int| (s.last_token_id + 1 + k) as u64,
    ));
    let after = s.minted(to, quantity);
    assert forall|i: int| 0 <= i < after.tokens.len() implies #[trigger] after.tokens[i].0 == i + 1 by {
        if i >= s.tokens.len() {
            assert(after.tokens[i] == batch[i - s.tokens.len()]);
        }
    }
}

/// A paid mint that would pass the cap fails with `SupplyExceeded`.
pub proof fn law_over_cap_fails(s: ContractState, transferred: Balance, quantity: u64)
    requires
        s.valid(),
        transferred == quantity * s.price_per_mint,
        s.last_token_id + quantity > s.max_supply,
    ensures
        s.mint_outcome(transferred, quantity) == Err::<(), PSP34Error>(PSP34Error::SupplyExceeded),
{
}

/// A mint whose attached value is not the unit price times the quantity
/// fails with `BadPaymentAmount`.
pub proof fn law_bad_payment_fails(s: ContractState, transferred: Balance, quantity: u64)
    requires
        transferred != quantity * s.price_per_mint,
    ensures
        s.mint_outcome(transferred, quantity) == Err::<(), PSP34Error>(PSP34Error::BadPaymentAmount),
{
}

/// A mint of zero tokens with nothing attached fails with `ZeroQuantity`.
pub proof fn law_zero_quantity_fails(s: ContractState)
    ensures
        s.mint_outcome(0, 0) == Err::<(), PSP34Error>(PSP34Error::ZeroQuantity),
{
}

/// Minting keeps every issued token issued and the base path as it was, so a
/// token's metadata location is always derived from the current base path.
pub proof fn law_mint_keeps_uris(s: ContractState, to: AccountId, quantity: u64, id: u64)
    requires
        s.valid(),
        s.is_issued(id),
        s.last_token_id + quantity <= s.max_supply,
    ensures
        s.minted(to, quantity).is_issued(id),
        s.minted(to, quantity).base_uri() == s.base_uri(),
{
}

/// After the administrator sets the base path, the state stays valid, the
/// same tokens are issued and the new path is the one every location uses.
pub proof fn law_set_base_uri_visible(s: ContractState, uri: Seq<char>, id: u64)
    requires
        s.valid(),
    ensures
        s.with_base_uri(uri).valid(),
        s.with_base_uri(uri).base_uri() == uri,
        s.with_base_uri(uri).is_issued(id) == s.is_issued(id),
{
}

} // verus!
