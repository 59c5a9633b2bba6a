use vstd::prelude::*;
use crate::error::PSP34Error;

verus! {

/// An account identity.
pub type AccountId = u64;

/// The owner registered for `id` in a registration log, if any.
pub open spec fn owner_in(log: Seq<(u64, AccountId)>, id: u64) -> Option<AccountId>
    decreases log.len(),
{
    if log.len() == 0 {
        None
    } else if log.last().0 == id {
        Some(log.last().1)
    } else {
        owner_in(log.drop_last(), id)
    }
}

/// The tokens registered to `account`, in the order they were registered.
pub open spec fn owned_by(log: Seq<(u64, AccountId)>, account: AccountId) -> Seq<u64>
    decreases log.len(),
{
    if log.len() == 0 {
        Seq::empty()
    } else if log.last().1 == account {
        owned_by(log.drop_last(), account).push(log.last().0)
    } else {
        owned_by(log.drop_last(), account)
    }
}

/// What an account owns after a shorter log is what it owns at the start of the longer one.
pub proof fn lemma_owned_prefix(log: Seq<(u64, AccountId)>, account: AccountId, i: int)
    requires
        0 <= i <= log.len(),
    ensures
        owned_by(log.subrange(0, i), account).len() <= owned_by(log, account).len(),
        owned_by(log.subrange(0, i), account) =~= owned_by(log, account).subrange(
            0,
            owned_by(log.subrange(0, i), account).len() as int,
        ),
    decreases log.len() - i,
{
    if i < log.len() {
        lemma_owned_prefix(log, account, i + 1);
        assert(log.subrange(0, i + 1).drop_last() =~= log.subrange(0, i));
    } else {
        assert(log.subrange(0, i) =~= log);
    }
}

/// Appending tokens registered to one account extends what it owns by their
/// identifiers, in order, and leaves every other account's tokens as they were.
pub proof fn lemma_owned_append(log: Seq<(u64, AccountId)>, more: Seq<(u64, AccountId)>, account: AccountId)
    requires
        forall|k: int| 0 <= k < more.len() ==> #[trigger] more[k].1 == account,
    ensures
        owned_by(log + more, account) =~= owned_by(log, account) + more.map_values(|e: (u64, AccountId)| e.0),
        forall|other: AccountId| other != account ==> #[trigger] owned_by(log + more, other) == owned_by(log, other),
    decreases more.len(),
{
    if more.len() == 0 {
        assert(log + more =~= log);
    } else {
        let shorter = more.drop_last();
        lemma_owned_append(log, shorter, account);
        assert((log + more).drop_last() =~= log + shorter);
        assert(more.map_values(|e: (u64, AccountId)| e.0) =~= shorter.map_values(|e: (u64, AccountId)| e.0).push(more.last().0));
        assert forall|other: AccountId| other != account implies #[trigger] owned_by(log + more, other) == owned_by(log, other) by {
            assert((log + more).drop_last() =~= log + shorter);
            assert((log + more).last() == more[more.len() - 1]);
            assert(more[more.len() - 1].1 == account);
            assert(owned_by(log + shorter, other) == owned_by(log, other));
        }
    }
}

/// The ownership registry: which account owns which token, and each
/// account's tokens in the order they were registered.
pub struct Ledger {
    log: Vec<(u64, AccountId)>,
}

impl View for Ledger {
    type V = Seq<(u64, AccountId)>;

    closed spec fn view(&self) -> Seq<(u64, AccountId)> {
        self.log@
    }
}

impl Ledger {
    /// A registry with no tokens.
    pub fn new() -> (r: Ledger)
        ensures
            r@ == Seq::<(u64, AccountId)>::empty(),
    {
        Ledger { log: Vec::new() }
    }

    /// Number of registered tokens.
    pub fn total_supply(&self) -> (r: u128)
        ensures
            r == self@.len(),
    {
        self.log.len() as u128
    }

    /// The owner of `id`, or `None` when it is not registered.
    pub fn owner_of(&self, id: u64) -> (r: Option<AccountId>)
        ensures
            r == owner_in(self@, id),
    {
        let mut i: usize = self.log.len();
        assert(self.log@.subrange(0, i as int) =~= self.log@);
        while i > 0
            invariant
                i <= self.log@.len(),
                owner_in(self.log@, id) == owner_in(self.log@.subrange(0, i as int), id),
            decreases i,
        {
            assert(self.log@.subrange(0, i as int).drop_last() =~= self.log@.subrange(0, i - 1));
            if self.log[i - 1].0 == id {
                return Some(self.log[i - 1].1);
            }
            i = i - 1;
        }
        None
    }

    /// Number of tokens owned by `account`.
    pub fn balance_of(&self, account: AccountId) -> (r: usize)
        ensures
            r == owned_by(self@, account).len(),
    {
        let mut count: usize = 0;
        let mut i: usize = 0;
        while i < self.log.len()
            invariant
                i <= self.log@.len(),
                count == owned_by(self.log@.subrange(0, i as int), account).len(),
                count <= i,
            decreases self.log@.len() - i,
        {
            assert(self.log@.subrange(0, i + 1).drop_last() =~= self.log@.subrange(0, i as int));
            if self.log[i].1 == account {
                count = count + 1;
            }
            i = i + 1;
        }
        assert(self.log@.subrange(0, i as int) =~= self.log@);
        count
    }

    /// The `index`-th token of `account`, counting from zero in registration order.
    pub fn owners_token_by_index(&self, account: AccountId, index: u128) -> (r: Result<u64, PSP34Error>)
        ensures
            index < owned_by(self@, account).len() ==> r == Ok::<u64, PSP34Error>(owned_by(self@, account)[index as int]),
            index >= owned_by(self@, account).len() ==> r == Err::<u64, PSP34Error>(PSP34Error::TokenNotExists),
    {
        let mut count: u128 = 0;
        let mut i: usize = 0;
        while i < self.log.len()
            invariant
                i <= self.log@.len(),
                count == owned_by(self.log@.subrange(0, i as int), account).len(),
                count <= i,
                count <= index,
            decreases self.log@.len() - i,
        {
            assert(self.log@.subrange(0, i + 1).drop_last() =~= self.log@.subrange(0, i as int));
            if self.log[i].1 == account {
                if count == index {
                    proof {
                        let seen = self.log@.subrange(0, i + 1);
                        assert(seen.last() == self.log@[i as int]);
                        assert(owned_by(seen, account) == owned_by(seen.drop_last(), account).push(self.log@[i as int].0));
                        lemma_owned_prefix(self.log@, account, i + 1);
                        let all = owned_by(self.log@, account);
                        assert(owned_by(seen, account)[index as int] == all.subrange(0, index + 1)[index as int]);
                    }
                    return Ok(self.log[i].0);
                }
                count = count + 1;
            }
            i = i + 1;
        }
        assert(self.log@.subrange(0, i as int) =~= self.log@);
        Err(PSP34Error::TokenNotExists)
    }

    /// Registers `id` as owned by `to`; fails with `TokenExists` when `id`
    /// already has an owner, leaving the registry unchanged.
    pub fn register(&mut self, id: u64, to: AccountId) -> (r: Result<(), PSP34Error>)
        ensures
            owner_in(old(self)@, id) is Some ==> r == Err::<(), PSP34Error>(PSP34Error::TokenExists) && final(self)@ == old(self)@,
            owner_in(old(self)@, id) is None ==> r is Ok && final(self)@ == old(self)@.push((id, to)),
    {
        if self.owner_of(id).is_some() {
            return Err(PSP34Error::TokenExists);
        }
        self.log.push((id, to));
        Ok(())
    }
}

} // verus!
