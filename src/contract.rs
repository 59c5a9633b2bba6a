use vstd::prelude::*;
use crate::error::PSP34Error;
use crate::ledger::{AccountId, Ledger, owner_in, owned_by};
use crate::metadata::AttributeStore;
use crate::uri::{compose_token_uri, token_uri_of};

verus! {

/// An amount of the chain's currency.
pub type Balance = u128;

/// Identifier under which collection-level attributes are kept; no token has it.
pub const COLLECTION_ID: u64 = 0;

/// The key of the base path among the attributes.
pub open spec fn base_uri_key() -> (u64, Seq<char>) {
    (0, "baseUri"@)
}

/// The abstract state of a contract instance.
pub struct ContractState {
    /// Issued tokens and their first owners, in order of issue.
    pub tokens: Seq<(u64, AccountId)>,
    /// Attributes, keyed by token identifier and name.
    pub attributes: Map<(u64, Seq<char>), Seq<char>>,
    /// The administrator.
    pub owner: AccountId,
    pub last_token_id: u64,
    pub max_supply: u64,
    pub price_per_mint: Balance,
    /// Whether a guarded call is running.
    pub entered: bool,
}

impl ContractState {
    /// The state between calls: identifiers are dense from 1 up to the last
    /// issued one, which never passes the cap; the base path is set and the
    /// reentrancy guard is released.
    pub open spec fn valid(self) -> bool {
        &&& self.last_token_id <= self.max_supply
        &&& self.tokens.len() == self.last_token_id
        &&& forall|i: int| 0 <= i < self.tokens.len() ==> #[trigger] self.tokens[i].0 == i + 1
        &&& self.attributes.contains_key(base_uri_key())
        &&& !self.entered
    }

    pub open spec fn base_uri(self) -> Seq<char> {
        self.attributes[base_uri_key()]
    }

    pub open spec fn is_issued(self, id: u64) -> bool {
        1 <= id <= self.last_token_id
    }

    /// The tokens that a batch of `quantity` for `to` issues next.
    pub open spec fn batch(self, to: AccountId, quantity: u64) -> Seq<(u64, AccountId)> {
        Seq::new(quantity as nat, |k: int| ((self.last_token_id + 1 + k) as u64, to))
    }

    /// What a mint of `quantity` with `transferred` attached returns.
    pub open spec fn mint_outcome(self, transferred: Balance, quantity: u64) -> Result<(), PSP34Error> {
        if transferred != quantity * self.price_per_mint {
            Err(PSP34Error::BadPaymentAmount)
        } else if quantity == 0 {
            Err(PSP34Error::ZeroQuantity)
        } else if self.last_token_id + quantity > self.max_supply {
            Err(PSP34Error::SupplyExceeded)
        } else {
            Ok(())
        }
    }

    /// The state after a successful mint of `quantity` for `to`.
    pub open spec fn minted(self, to: AccountId, quantity: u64) -> ContractState {
        ContractState {
            tokens: self.tokens + self.batch(to, quantity),
            last_token_id: (self.last_token_id + quantity) as u64,
            ..self
        }
    }

    /// The state after the administrator sets the base path to `uri`.
    pub open spec fn with_base_uri(self, uri: Seq<char>) -> ContractState {
        ContractState { attributes: self.attributes.insert(base_uri_key(), uri), ..self }
    }
}

/// In a log whose identifiers run 1, 2, 3, ..., the owner of `id` is the
/// `id`-th entry's.
proof fn lemma_dense_owner(log: Seq<(u64, AccountId)>, id: u64)
    requires
        forall|i: int| 0 <= i < log.len() ==> #[trigger] log[i].0 == i + 1,
    ensures
        owner_in(log, id) == if 1 <= id <= log.len() {
            Some(log[id - 1].1)
        } else {
            None::<AccountId>
        },
    decreases log.len(),
{
    if log.len() > 0 {
        let shorter = log.drop_last();
        assert forall|i: int| 0 <= i < shorter.len() implies #[trigger] shorter[i].0 == i + 1 by {
            assert(shorter[i] == log[i]);
        }
        lemma_dense_owner(shorter, id);
        assert(log.last() == log[log.len() - 1]);
    }
}

/// A token-issuance contract: sells sequential token identifiers at a fixed
/// unit price up to a cap, and derives each token's metadata location from
/// an administrator-controlled base path.
pub struct Shiden34Contract {
    ledger: Ledger,
    metadata: AttributeStore,
    entered: bool,
    owner: AccountId,
    last_token_id: u64,
    max_supply: u64,
    price_per_mint: Balance,
}

impl View for Shiden34Contract {
    type V = ContractState;

    closed spec fn view(&self) -> ContractState {
        ContractState {
            tokens: self.ledger@,
            attributes: self.metadata@,
            owner: self.owner,
            last_token_id: self.last_token_id,
            max_supply: self.max_supply,
            price_per_mint: self.price_per_mint,
            entered: self.entered,
        }
    }
}

impl Shiden34Contract {
    pub open spec fn wf(&self) -> bool {
        self@.valid()
    }

    /// Creates the contract with its collection attributes, cap and unit
    /// price; `caller` becomes the administrator.
    pub fn new(
        name: String,
        symbol: String,
        base_uri: String,
        max_supply: u64,
        price_per_mint: Balance,
        caller: AccountId,
    ) -> (r: Shiden34Contract)
        ensures
            r.wf(),
            r@ == (ContractState {
                tokens: Seq::empty(),
                attributes: Map::empty().insert((0, "name"@), name@).insert(
                    (0, "symbol"@),
                    symbol@,
                ).insert(base_uri_key(), base_uri@),
                owner: caller,
                last_token_id: 0,
                max_supply,
                price_per_mint,
                entered: false,
            }),
    {
        let mut metadata = AttributeStore::new();
        metadata.set_attribute(COLLECTION_ID, String::from_str("name"), name);
        metadata.set_attribute(COLLECTION_ID, String::from_str("symbol"), symbol);
        metadata.set_attribute(COLLECTION_ID, String::from_str("baseUri"), base_uri);
        Shiden34Contract {
            ledger: Ledger::new(),
            metadata,
            entered: false,
            owner: caller,
            last_token_id: 0,
            max_supply,
            price_per_mint,
        }
    }

    /// Checks that `transferred` is exactly the price of `mint_amount` tokens.
    fn check_value(&self, transferred: Balance, mint_amount: u64) -> (r: Result<(), PSP34Error>)
        ensures
            r == if transferred == mint_amount * self@.price_per_mint {
                Ok::<(), PSP34Error>(())
            } else {
                Err(PSP34Error::BadPaymentAmount)
            },
    {
        match (mint_amount as u128).checked_mul(self.price_per_mint) {
            Some(expected) => {
                if expected == transferred {
                    Ok(())
                } else {
                    Err(PSP34Error::BadPaymentAmount)
                }
            },
            None => Err(PSP34Error::BadPaymentAmount),
        }
    }

    /// Checks that `mint_amount` is positive and fits under the cap.
    fn check_amount(&self, mint_amount: u64) -> (r: Result<(), PSP34Error>)
        requires
            self@.last_token_id <= self@.max_supply,
        ensures
            r == if mint_amount == 0 {
                Err(PSP34Error::ZeroQuantity)
            } else if self@.last_token_id + mint_amount > self@.max_supply {
                Err(PSP34Error::SupplyExceeded)
            } else {
                Ok::<(), PSP34Error>(())
            },
    {
        if mint_amount == 0 {
            return Err(PSP34Error::ZeroQuantity);
        }
        if mint_amount > self.max_supply - self.last_token_id {
            return Err(PSP34Error::SupplyExceeded);
        }
        Ok(())
    }

    /// Checks that `id` has an owner.
    fn token_exists(&self, id: u64) -> (r: Result<(), PSP34Error>)
        requires
            self.wf(),
        ensures
            r == if self@.is_issued(id) {
                Ok::<(), PSP34Error>(())
            } else {
                Err(PSP34Error::TokenNotExists)
            },
    {
        proof {
            lemma_dense_owner(self.ledger@, id);
        }
        match self.ledger.owner_of(id) {
            Some(_) => Ok(()),
            None => Err(PSP34Error::TokenNotExists),
        }
    }

    /// Issues the next `mint_amount` identifiers to `to`, in ascending order.
    fn allocate(&mut self, to: AccountId, mint_amount: u64) -> (r: Result<(), PSP34Error>)
        requires
            old(self).ledger@.len() == old(self).last_token_id,
            forall|i: int| 0 <= i < old(self).ledger@.len() ==> #[trigger] old(self).ledger@[i].0 == i + 1,
            old(self).last_token_id + mint_amount <= old(self).max_supply,
        ensures
            r == Ok::<(), PSP34Error>(()),
            final(self)@ == (ContractState { entered: old(self)@.entered, ..old(self)@.minted(to, mint_amount) }),
    {
        let ghost start = self@;
        let mut issued: u64 = 0;
        while issued < mint_amount
            invariant
                issued <= mint_amount,
                start.last_token_id + mint_amount <= start.max_supply,
                self.last_token_id == start.last_token_id + issued,
                self.ledger@ =~= start.tokens + start.batch(to, issued),
                self.ledger@.len() == self.last_token_id,
                forall|i: int| 0 <= i < self.ledger@.len() ==> #[trigger] self.ledger@[i].0 == i + 1,
                self.metadata@ == start.attributes,
                self.owner == start.owner,
                self.max_supply == start.max_supply,
                self.price_per_mint == start.price_per_mint,
                self.entered == start.entered,
            decreases mint_amount - issued,
        {
            let id = self.last_token_id + 1;
            proof {
                lemma_dense_owner(self.ledger@, id);
            }
            // Every identifier above the last issued one is free, so this
            // registration always succeeds.
            match self.ledger.register(id, to) {
                Ok(()) => {},
                Err(e) => {
                    return Err(e);
                },
            }
            self.last_token_id = id;
            issued = issued + 1;
            assert(self.ledger@ =~= start.tokens + start.batch(to, issued));
        }
        Ok(())
    }

    /// Mints one token to `to` for exactly one unit price; the identifier
    /// argument is ignored, the next free one is used.
    pub fn mint(&mut self, transferred: Balance, to: AccountId, _id: u64) -> (r: Result<(), PSP34Error>)
        requires
            old(self).wf(),
        ensures
            final(self).wf(),
            r == old(self)@.mint_outcome(transferred, 1),
            r is Ok ==> final(self)@ == old(self)@.minted(to, 1),
            r is Err ==> final(self)@ == old(self)@,
    {
        self.mint_for(transferred, to, 1)
    }

    /// Mints `mint_amount` tokens to `to`, paid with `transferred`, under the
    /// reentrancy guard; on any failure nothing changes.
    pub fn mint_for(&mut self, transferred: Balance, to: AccountId, mint_amount: u64) -> (r: Result<(), PSP34Error>)
        requires
            old(self).wf(),
        ensures
            final(self).wf(),
            r == old(self)@.mint_outcome(transferred, mint_amount),
            r is Ok ==> final(self)@ == old(self)@.minted(to, mint_amount),
            r is Err ==> final(self)@ == old(self)@,
    {
        if self.entered {
            return Err(PSP34Error::ReentrancyDetected);
        }
        self.check_value(transferred, mint_amount)?;
        self.check_amount(mint_amount)?;
        self.entered = true;
        let r = self.allocate(to, mint_amount);
        self.entered = false;
        r
    }

    /// Replaces the base path; only the administrator may.
    pub fn set_base_uri(&mut self, caller: AccountId, uri: String) -> (r: Result<(), PSP34Error>)
        requires
            old(self).wf(),
        ensures
            final(self).wf(),
            caller != old(self)@.owner ==> r == Err::<(), PSP34Error>(PSP34Error::NotAuthorized)
                && final(self)@ == old(self)@,
            caller == old(self)@.owner ==> r is Ok && final(self)@ == old(self)@.with_base_uri(uri@),
    {
        if caller != self.owner {
            return Err(PSP34Error::NotAuthorized);
        }
        self.metadata.set_attribute(COLLECTION_ID, String::from_str("baseUri"), uri);
        Ok(())
    }

    /// The metadata location of an issued token: the current base path, the
    /// decimal identifier and `.json`.
    pub fn token_uri(&self, token_id: u64) -> (r: Result<String, PSP34Error>)
        requires
            self.wf(),
        ensures
            !self@.is_issued(token_id) ==> r == Err::<String, PSP34Error>(PSP34Error::TokenNotExists),
            self@.is_issued(token_id) ==> r is Ok && r->Ok_0@ == token_uri_of(self@.base_uri(), token_id),
    {
        self.token_exists(token_id)?;
        let key = String::from_str("baseUri");
        match self.metadata.get_attribute(COLLECTION_ID, &key) {
            Some(base) => Ok(compose_token_uri(&base, token_id)),
            None => Err(PSP34Error::MissingBaseUri),
        }
    }

    /// The issuance cap.
    pub fn max_supply(&self) -> (r: u64)
        ensures
            r == self@.max_supply,
    {
        self.max_supply
    }

    /// The identifier of the latest issued token, 0 before the first.
    pub fn last_token_id(&self) -> (r: u64)
        ensures
            r == self@.last_token_id,
    {
        self.last_token_id
    }

    /// The price of one token.
    pub fn price_per_mint(&self) -> (r: Balance)
        ensures
            r == self@.price_per_mint,
    {
        self.price_per_mint
    }

    /// The administrator.
    pub fn owner(&self) -> (r: AccountId)
        ensures
            r == self@.owner,
    {
        self.owner
    }

    /// The attribute `key` of `id`, if set.
    pub fn get_attribute(&self, id: u64, key: &String) -> (r: Option<String>)
        ensures
            r is Some <==> self@.attributes.contains_key((id, key@)),
            r is Some ==> r->0@ == self@.attributes[(id, key@)],
    {
        self.metadata.get_attribute(id, key)
    }

    /// Number of issued tokens.
    pub fn total_supply(&self) -> (r: u128)
        ensures
            r == self@.tokens.len(),
    {
        self.ledger.total_supply()
    }

    /// The owner of token `id`, if it is issued.
    pub fn owner_of(&self, id: u64) -> (r: Option<AccountId>)
        requires
            self.wf(),
        ensures
            self@.is_issued(id) ==> r == Some(self@.tokens[id - 1].1),
            !self@.is_issued(id) ==> r is None,
    {
        proof {
            lemma_dense_owner(self.ledger@, id);
        }
        self.ledger.owner_of(id)
    }

    /// Number of tokens that `account` owns.
    pub fn balance_of(&self, account: AccountId) -> (r: usize)
        ensures
            r == owned_by(self@.tokens, account).len(),
    {
        self.ledger.balance_of(account)
    }

    /// The `index`-th token of `account`, counting from zero in order of issue.
    pub fn owners_token_by_index(&self, account: AccountId, index: u128) -> (r: Result<u64, PSP34Error>)
        ensures
            index < owned_by(self@.tokens, account).len() ==> r == Ok::<u64, PSP34Error>(
                owned_by(self@.tokens, account)[index as int],
            ),
            index >= owned_by(self@.tokens, account).len() ==> r == Err::<u64, PSP34Error>(
                PSP34Error::TokenNotExists,
            ),
    {
        self.ledger.owners_token_by_index(account, index)
    }
}

} // verus!
