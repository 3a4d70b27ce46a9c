//! A slot of the overlay's cache: an account record, or the mark that the
//! account was removed, with its lifecycle state.

use crate::account::AVMAccount;
use crate::uint::U256;
use vstd::prelude::*;

verus! {

/// Where a cache slot stands between the store and pending changes.
#[derive(PartialEq, Eq, Clone, Copy, Debug, Structural)]
pub enum AccountState {
    /// Loaded from the store and not modified since.
    CleanFresh,
    /// Loaded or written out, and trusted to match the store.
    CleanCached,
    /// Holds changes that the store has not seen.
    Dirty,
}

/// A cache slot. Without an account it is a tombstone: the account was
/// removed.
#[derive(Debug)]
pub struct AVMAccountEntry {
    pub account: Option<AVMAccount>,
    /// The balance of the account when the slot was made.
    pub old_balance: Option<U256>,
    pub state: AccountState,
}

/// The balance of an account that may be absent.
pub open spec fn balance_of(account: Option<AVMAccount>) -> Option<nat> {
    match account {
        Some(a) => Some(a@.balance),
        None => None,
    }
}

/// The number that a value holds, where there is one.
pub open spec fn amount_view(amount: Option<U256>) -> Option<nat> {
    match amount {
        Some(x) => Some(x@),
        None => None,
    }
}

fn snapshot(account: &Option<AVMAccount>) -> (r: Option<U256>)
    ensures
        amount_view(r) == balance_of(*account),
{
    match account {
        Some(a) => Some(*a.balance()),
        None => None,
    }
}

impl AVMAccountEntry {
    /// A slot for an account that was just loaded and is unmodified.
    pub fn new_clean(account: Option<AVMAccount>) -> (r: AVMAccountEntry)
        ensures
            r.account == account,
            amount_view(r.old_balance) == balance_of(account),
            r.state == AccountState::CleanFresh,
    {
        AVMAccountEntry {
            old_balance: snapshot(&account),
            account: account,
            state: AccountState::CleanFresh,
        }
    }

    /// A slot for an account that was just created, modified or removed.
    pub fn new_dirty(account: Option<AVMAccount>) -> (r: AVMAccountEntry)
        ensures
            r.account == account,
            amount_view(r.old_balance) == balance_of(account),
            r.state == AccountState::Dirty,
    {
        AVMAccountEntry {
            old_balance: snapshot(&account),
            account: account,
            state: AccountState::Dirty,
        }
    }

    /// A slot for an account that was loaded and is trusted as cached.
    pub fn new_clean_cached(account: Option<AVMAccount>) -> (r: AVMAccountEntry)
        ensures
            r.account == account,
            amount_view(r.old_balance) == balance_of(account),
            r.state == AccountState::CleanCached,
    {
        AVMAccountEntry {
            old_balance: snapshot(&account),
            account: account,
            state: AccountState::CleanCached,
        }
    }

    /// The lifecycle state of the slot.
    pub fn get_state(&self) -> (r: AccountState)
        ensures
            r == self.state,
    {
        self.state
    }

    /// Set the lifecycle state of the slot; the account stays.
    pub fn change_state(&mut self, state: AccountState)
        ensures
            final(self).state == state,
            final(self).account == old(self).account,
            final(self).old_balance == old(self).old_balance,
    {
        self.state = state;
    }

    /// Whether the slot holds changes that the store has not seen.
    pub fn is_dirty(&self) -> (r: bool)
        ensures
            r == (self.state == AccountState::Dirty),
    {
        self.state == AccountState::Dirty
    }
}

/// What the cache held for an address before a checkpoint's first change
/// to it.
#[derive(Debug)]
pub enum PriorEntry {
    /// The cache had no slot for the address.
    AddressAbsent,
    /// The cache had a tombstone for the address.
    Tombstone { old_balance: Option<U256>, state: AccountState },
    /// The cache had a slot with an account for the address.
    PresentEntry { account: AVMAccount, old_balance: Option<U256>, state: AccountState },
}

impl PriorEntry {
    /// The slot that is put back on a revert; `None` where the slot is
    /// taken away.
    pub open spec fn entry(self) -> Option<AVMAccountEntry> {
        match self {
            PriorEntry::AddressAbsent => None,
            PriorEntry::Tombstone { old_balance, state } => Some(
                AVMAccountEntry { account: None, old_balance, state },
            ),
            PriorEntry::PresentEntry { account, old_balance, state } => Some(
                AVMAccountEntry { account: Some(account), old_balance, state },
            ),
        }
    }

    /// Record what the cache held: `prior` is the slot, `None` where there
    /// was none.
    pub fn capture(prior: Option<AVMAccountEntry>) -> (r: PriorEntry)
        ensures
            r.entry() == prior,
            prior is None <==> r is AddressAbsent,
            prior is Some && prior.unwrap().account is None <==> r is Tombstone,
    {
        match prior {
            None => PriorEntry::AddressAbsent,
            Some(entry) => {
                let AVMAccountEntry { account, old_balance, state } = entry;
                match account {
                    None => PriorEntry::Tombstone { old_balance, state },
                    Some(account) => PriorEntry::PresentEntry { account, old_balance, state },
                }
            },
        }
    }

    /// The slot to put back; `None` where the slot is to be taken away.
    pub fn restore(self) -> (r: Option<AVMAccountEntry>)
        ensures
            r == self.entry(),
    {
        match self {
            PriorEntry::AddressAbsent => None,
            PriorEntry::Tombstone { old_balance, state } => Some(
                AVMAccountEntry { account: None, old_balance, state },
            ),
            PriorEntry::PresentEntry { account, old_balance, state } => Some(
                AVMAccountEntry { account: Some(account), old_balance, state },
            ),
        }
    }
}

} // verus!
