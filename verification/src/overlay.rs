//! The overlay: an address-keyed cache of account slots with a stack of
//! checkpoints over it.

use crate::account::{code_view, AVMAccount};
use crate::address_map::AddressMap;
use crate::basic_account::{lemma_read_is_one, BasicAccount};
use crate::entry::{amount_view, AVMAccountEntry, AccountState, PriorEntry};
use crate::hash::{blake2b, blake2b_256, Address, H256};
use crate::model::{encodable, writes_for, writes_view, AccountView, StorageError, StorageWrite};
use crate::overlay_model::{merged, rolled_back, DeltaView, OverlayView};
use crate::uint::U256;
use std::sync::Arc;
use vstd::prelude::*;

verus! {

/// What a checkpoint's list of records stands for.
pub open spec fn delta_view(records: Map<Seq<u8>, PriorEntry>) -> DeltaView {
    Map::new(|a: Seq<u8>| records.contains_key(a), |a: Seq<u8>| records[a].entry())
}

/// What the commit of one address asks of the backing store.
#[derive(Debug)]
pub enum CommitRequest {
    /// Nothing: the cache has no dirty slot for the address.
    Nothing,
    /// The account was removed: take the key out of the account trie.
    Remove { address_hash: H256 },
    /// Write the code, where there is any, to the store under its hash;
    /// make the writes to the storage trie under `storage_root`; then report
    /// the new root of that trie.
    Store {
        address_hash: H256,
        code: Option<(H256, Arc<Vec<u8>>)>,
        storage_root: H256,
        writes: Vec<StorageWrite>,
    },
}

/// The slot of `address` where it is dirty, `None` where the cache has no
/// slot for the address or a slot that is not dirty.
pub open spec fn dirty_slot(cache: Map<Seq<u8>, AVMAccountEntry>, address: Seq<u8>) -> Option<
    AVMAccountEntry,
> {
    if cache.contains_key(address) && cache[address].state == AccountState::Dirty {
        Some(cache[address])
    } else {
        None
    }
}

/// `after` is `before` with the account replaced by one that holds
/// `account`; the rest of the slot is as it was.
pub open spec fn slot_with_account(
    before: AVMAccountEntry,
    after: AVMAccountEntry,
    account: AccountView,
) -> bool {
    &&& after.account is Some
    &&& after.account.unwrap()@ == account
    &&& after.old_balance == before.old_balance
    &&& after.state == before.state
}

/// The cache of account slots and the open checkpoints.
#[derive(Debug)]
pub struct AVMAccMgr {
    cache: AddressMap<AVMAccountEntry>,
    checkpoints: Vec<AddressMap<PriorEntry>>,
}

impl View for AVMAccMgr {
    type V = OverlayView;

    closed spec fn view(&self) -> OverlayView {
        OverlayView {
            cache: self.cache@,
            checkpoints: Seq::new(
                self.checkpoints@.len(),
                |i: int| delta_view(self.checkpoints@[i]@),
            ),
        }
    }
}

impl AVMAccMgr {
    /// The lists behind the cache and the checkpoints hold no address
    /// twice.
    pub closed spec fn wf(&self) -> bool {
        &&& self.cache.wf()
        &&& forall|i: int| 0 <= i < self.checkpoints@.len() ==> (#[trigger] self.checkpoints@[i]).wf()
    }

    /// An overlay with an empty cache and no checkpoint.
    pub fn new() -> (r: AVMAccMgr)
        ensures
            r.wf(),
            r@ == OverlayView::empty(),
    {
        let r = AVMAccMgr { cache: AddressMap::new(), checkpoints: Vec::new() };
        assert(r@.checkpoints =~= Seq::empty());
        r
    }

    /// The slot that the cache holds for `address`.
    pub fn get(&self, address: &Address) -> (r: Option<&AVMAccountEntry>)
        requires
            self.wf(),
        ensures
            match r {
                Some(entry) => self@.cache.contains_key(address@) && *entry == self@.cache[address@],
                None => !self@.cache.contains_key(address@),
            },
    {
        self.cache.get(address)
    }

    /// The account at `address` as the overlay sees it: `None` where the
    /// cache has no slot for the address, and where the slot is a
    /// tombstone.
    pub fn account(&self, address: &Address) -> (r: Option<&AVMAccount>)
        requires
            self.wf(),
        ensures
            match r {
                Some(account) => self@.cache.contains_key(address@) && self@.cache[address@].account
                    == Some(*account),
                None => !self@.cache.contains_key(address@) || self@.cache[address@].account
                    is None,
            },
    {
        match self.cache.get(address) {
            Some(entry) => entry.account.as_ref(),
            None => None,
        }
    }

    /// The number of open checkpoints.
    pub fn depth(&self) -> (r: usize)
        ensures
            r == self@.checkpoints.len(),
    {
        self.checkpoints.len()
    }

    /// Install a slot with a new account of zero balance and zero nonce,
    /// marked dirty.
    pub fn new_account(&mut self, address: &Address)
        requires
            old(self).wf(),
        ensures
            final(self).wf(),
            final(self)@.cache.contains_key(address@),
            final(self)@ == old(self)@.installed(address@, final(self)@.cache[address@]),
            final(self)@.cache[address@].state == AccountState::Dirty,
            amount_view(final(self)@.cache[address@].old_balance) == Some(0nat),
            final(self)@.cache[address@].account is Some,
            final(self)@.cache[address@].account.unwrap()@ == AccountView::fresh(0, 0, Some(0nat)),
    {
        let account = AVMAccount::new_basic(U256::zero(), U256::zero());
        self.insert_cache(address, AVMAccountEntry::new_dirty(Some(account)));
    }

    /// Install `account` as the slot of `address`, over any slot that the
    /// cache holds for it. Where a checkpoint is open and has no record for
    /// the address yet, it records what the cache held before.
    pub fn insert_cache(&mut self, address: &Address, account: AVMAccountEntry)
        requires
            old(self).wf(),
        ensures
            final(self).wf(),
            final(self)@ == old(self)@.installed(address@, account),
    {
        let ghost before = self@;
        let previous = self.cache.insert(*address, account);
        match self.checkpoints.pop() {
            Some(top) => {
                let mut top = top;
                let ghost below = self.checkpoints@;
                let ghost recorded = top@;
                if !top.contains_key(address) {
                    let _ = top.insert(*address, PriorEntry::capture(previous));
                    assert(delta_view(top@) =~= delta_view(recorded).insert(address@, previous));
                }
                self.checkpoints.push(top);
                assert(self@.checkpoints =~= before.installed(address@, account).checkpoints);
            },
            None => {
                assert(self@.checkpoints =~= before.checkpoints);
            },
        }
    }

    /// The key under which the account trie holds the account of
    /// `address`, where the cache has no slot for the address and one has
    /// to be loaded; `None` where the cache has a slot.
    pub fn load_key(&self, address: &Address) -> (r: Option<H256>)
        requires
            self.wf(),
        ensures
            match r {
                Some(key) => !self@.cache.contains_key(address@) && key@ == blake2b_256(address@),
                None => self@.cache.contains_key(address@),
            },
    {
        if self.cache.contains_key(address) {
            None
        } else {
            Some(blake2b(address.as_bytes().as_slice()))
        }
    }

    /// Load the account of `address` into the cache. `fetched` is the
    /// answer of the account trie to a read of the address's key: the
    /// encoded account, nothing, or a failure; it is looked at only where
    /// the cache has no slot for the address. An account that the trie
    /// holds is installed as a fresh clean slot, and so is the knowledge
    /// that it holds none. A failure is handed on, and bytes that encode no
    /// account fail with `StorageError::Encoding`; nothing changes then.
    pub fn load(&mut self, address: &Address, fetched: Result<Option<Vec<u8>>, StorageError>) -> (r:
        Result<(), StorageError>)
        requires
            old(self).wf(),
        ensures
            final(self).wf(),
            r is Err ==> final(self)@ == old(self)@,
            old(self)@.cache.contains_key(address@) ==> r is Ok && final(self)@ == old(self)@,
            !old(self)@.cache.contains_key(address@) ==> match fetched {
                Err(e) => r == Err::<(), StorageError>(e),
                Ok(None) => r is Ok && final(self)@ == old(self)@.installed(
                    address@,
                    AVMAccountEntry {
                        account: None,
                        old_balance: None,
                        state: AccountState::CleanFresh,
                    },
                ),
                Ok(Some(raw)) => {
                    if BasicAccount::read_from(raw@, None) {
                        r == Err::<(), StorageError>(StorageError::Encoding)
                    } else {
                        &&& r is Ok
                        &&& final(self)@.cache.contains_key(address@)
                        &&& final(self)@ == old(self)@.installed(
                            address@,
                            final(self)@.cache[address@],
                        )
                        &&& final(self)@.cache[address@].state == AccountState::CleanFresh
                        &&& final(self)@.cache[address@].account is Some
                        &&& BasicAccount::read_from(
                            raw@,
                            Some(final(self)@.cache[address@].account.unwrap().basic_fields()),
                        )
                    }
                },
            },
    {
        if self.cache.contains_key(address) {
            return Ok(());
        }
        let account = match fetched {
            Err(e) => {
                return Err(e);
            },
            Ok(None) => None,
            Ok(Some(raw)) => match AVMAccount::from_rlp(raw.as_slice()) {
                Some(account) => {
                    proof {
                        lemma_read_is_one(raw@, account.basic_fields());
                    }
                    Some(account)
                },
                None => {
                    return Err(StorageError::Encoding);
                },
            },
        };
        self.insert_cache(address, AVMAccountEntry::new_clean(account));
        Ok(())
    }

    /// Reserved for bookkeeping before a change to the account of
    /// `address`; it does nothing.
    pub fn note_cache(&self, _address: &Address) {
    }

    /// Remove an existing account: install a dirty tombstone for the
    /// address. Where a checkpoint is open and has no record for the address
    /// yet, it records what the cache held before.
    pub fn kill_account(&mut self, account: &Address)
        requires
            old(self).wf(),
        ensures
            final(self).wf(),
            final(self)@ == old(self)@.installed(
                account@,
                AVMAccountEntry { account: None, old_balance: None, state: AccountState::Dirty },
            ),
    {
        self.insert_cache(account, AVMAccountEntry::new_dirty(None));
    }

    /// Open a checkpoint.
    pub fn checkpoint(&mut self)
        requires
            old(self).wf(),
        ensures
            final(self).wf(),
            final(self)@ == old(self)@.opened(),
    {
        self.checkpoints.push(AddressMap::new());
        assert(delta_view(Map::<Seq<u8>, PriorEntry>::empty()) =~= Map::<
            Seq<u8>,
            Option<AVMAccountEntry>,
        >::empty());
        assert(self@.checkpoints =~= old(self)@.opened().checkpoints);
    }

    /// Close the innermost checkpoint and put every address that it
    /// recorded back to what the cache held for it: the slot, the
    /// tombstone, or no slot at all. Does nothing where no checkpoint is
    /// open.
    pub fn revert_to_checkpoint(&mut self)
        requires
            old(self).wf(),
        ensures
            final(self).wf(),
            final(self)@ == old(self)@.reverted(),
    {
        let ghost before = self@;
        match self.checkpoints.pop() {
            Some(top) => {
                let mut top = top;
                let ghost below = self.checkpoints@;
                assert(self@.checkpoints =~= before.checkpoints.drop_last());
                while top.len() > 0
                    invariant
                        top.wf(),
                        self.wf(),
                        self.checkpoints@ == below,
                        rolled_back(self.cache@, delta_view(top@)) == rolled_back(
                            before.cache,
                            before.checkpoints.last(),
                        ),
                    decreases top.size(),
                {
                    let ghost cache = self.cache@;
                    let ghost records = delta_view(top@);
                    match top.pop() {
                        Some((address, prior)) => {
                            match prior.restore() {
                                Some(entry) => {
                                    let _ = self.cache.insert(address, entry);
                                },
                                None => {
                                    let _ = self.cache.remove(&address);
                                },
                            }
                            assert(rolled_back(self.cache@, delta_view(top@)) =~= rolled_back(
                                cache,
                                records,
                            ));
                        },
                        None => {},
                    }
                }
                proof {
                    top.lemma_size();
                    assert(rolled_back(self.cache@, delta_view(top@)) =~= self.cache@);
                }
            },
            None => {
                assert(self@.checkpoints =~= before.checkpoints);
            },
        }
    }

    /// Close the innermost checkpoint and keep what was done since it was
    /// opened. Its records pass to the checkpoint around it, which keeps its
    /// own record where it has one for the same address, so that a revert
    /// of that checkpoint still undoes everything done since it was opened.
    /// Does nothing where no checkpoint is open.
    pub fn discard_checkpoint(&mut self)
        requires
            old(self).wf(),
        ensures
            final(self).wf(),
            final(self)@ == old(self)@.discarded(),
    {
        let ghost before = self@;
        let top = match self.checkpoints.pop() {
            Some(top) => top,
            None => {
                assert(self@.checkpoints =~= before.checkpoints);
                return ;
            },
        };
        let outer = match self.checkpoints.pop() {
            Some(outer) => outer,
            None => {
                assert(self@.checkpoints =~= before.checkpoints.drop_last());
                return ;
            },
        };
        let mut top = top;
        let mut outer = outer;
        let ghost below = self.checkpoints@;
        while top.len() > 0
            invariant
                top.wf(),
                outer.wf(),
                self.wf(),
                self.checkpoints@ == below,
                self.cache@ == before.cache,
                merged(delta_view(outer@), delta_view(top@)) == merged(
                    before.checkpoints[before.checkpoints.len() - 2],
                    before.checkpoints.last(),
                ),
            decreases top.size(),
        {
            let ghost outer_records = delta_view(outer@);
            let ghost records = delta_view(top@);
            match top.pop() {
                Some((address, prior)) => {
                    if !outer.contains_key(&address) {
                        let _ = outer.insert(address, prior);
                    }
                    assert(merged(delta_view(outer@), delta_view(top@)) =~= merged(
                        outer_records,
                        records,
                    ));
                },
                None => {},
            }
        }
        proof {
            top.lemma_size();
            assert(merged(delta_view(outer@), delta_view(top@)) =~= delta_view(outer@));
        }
        self.checkpoints.push(outer);
        assert(self@.checkpoints =~= before.discarded().checkpoints);
    }

    /// The addresses whose slot is dirty, each once: those that a commit
    /// has to persist.
    pub fn dirty_addresses(&self) -> (r: Vec<Address>)
        requires
            self.wf(),
        ensures
            forall|i: int| 0 <= i < r@.len() ==> dirty_slot(self@.cache, #[trigger] r@[i]@) is Some,
            forall|a: Seq<u8>|
                dirty_slot(self@.cache, a) is Some ==> exists|i: int|
                    0 <= i < r@.len() && #[trigger] r@[i]@ == a,
            forall|i: int, j: int| 0 <= i < j < r@.len() ==> r@[i]@ != r@[j]@,
    {
        let keys = self.cache.keys();
        let mut out: Vec<Address> = Vec::new();
        let ghost mut picked: Seq<int> = Seq::empty();
        let mut i: usize = 0;
        while i < keys.len()
            invariant
                i <= keys.len(),
                self.wf(),
                forall|n: int| 0 <= n < keys@.len() ==> self@.cache.contains_key(#[trigger] keys@[n]@),
                picked.len() == out@.len(),
                forall|n: int|
                    0 <= n < out@.len() ==> 0 <= #[trigger] picked[n] < i && out@[n] == keys@[picked[n]]
                        && dirty_slot(self@.cache, out@[n]@) is Some,
                forall|m: int, n: int| 0 <= m < n < picked.len() ==> picked[m] < picked[n],
                forall|n: int|
                    0 <= n < i && dirty_slot(self@.cache, #[trigger] keys@[n]@) is Some
                        ==> exists|m: int| 0 <= m < out@.len() && #[trigger] out@[m]@ == keys@[n]@,
            decreases keys.len() - i,
        {
            let dirty = match self.cache.get(&keys[i]) {
                Some(entry) => entry.is_dirty(),
                None => false,
            };
            if dirty {
                let ghost before = out@;
                out.push(keys[i]);
                proof {
                    picked = picked.push(i as int);
                    assert forall|n: int|
                        0 <= n <= i && dirty_slot(
                            self@.cache,
                            #[trigger] keys@[n]@,
                        ) is Some implies exists|m: int|
                        0 <= m < out@.len() && #[trigger] out@[m]@ == keys@[n]@ by {
                        if n < i {
                            let m = choose|m: int|
                                0 <= m < before.len() && #[trigger] before[m]@ == keys@[n]@;
                            assert(out@[m]@ == keys@[n]@);
                        } else {
                            assert(out@[out@.len() - 1]@ == keys@[n]@);
                        }
                    }
                }
            }
            i += 1;
        }
        proof {
            assert forall|n: int| 0 <= n < out@.len() implies dirty_slot(
                self@.cache,
                #[trigger] out@[n]@,
            ) is Some by {
                assert(0 <= picked[n] < i);
            }
            assert forall|a: Seq<u8>| dirty_slot(self@.cache, a) is Some implies exists|m: int|
                0 <= m < out@.len() && #[trigger] out@[m]@ == a by {
                let n = choose|n: int| 0 <= n < keys@.len() && #[trigger] keys@[n]@ == a;
                assert(dirty_slot(self@.cache, keys@[n]@) is Some);
            }
            assert forall|m: int, n: int| 0 <= m < n < out@.len() implies out@[m]@ != out@[n]@ by {
                assert(picked[m] < picked[n]);
            }
        }
        out
    }

    /// Start the commit of `address`: say what the backing store has to do
    /// for it. For a dirty slot with an account the code of the account is
    /// committed; its staged writes stay staged until `finish_commit`.
    /// Fails, with `StorageError::Encoding`, where a staged value is too
    /// long to encode; nothing changes then.
    pub fn begin_commit(&mut self, address: &Address) -> (r: Result<CommitRequest, StorageError>)
        requires
            old(self).wf(),
        ensures
            final(self).wf(),
            final(self)@.checkpoints == old(self)@.checkpoints,
            match dirty_slot(old(self)@.cache, address@) {
                None => r matches Ok(CommitRequest::Nothing) && final(self)@ == old(self)@,
                Some(slot) => match slot.account {
                    None => {
                        &&& r matches Ok(CommitRequest::Remove { address_hash })
                        &&& address_hash@ == blake2b_256(address@)
                        &&& final(self)@ == old(self)@
                    },
                    Some(account) => if encodable(account@.storage_changes) {
                        &&& r matches Ok(
                            CommitRequest::Store { address_hash, code, storage_root, writes },
                        )
                        &&& address_hash@ == account@.hash_of_address(address@)
                        &&& code_view(code) == account@.code_to_write()
                        &&& storage_root@ == account@.storage_root
                        &&& writes_view(writes@) == writes_for(account@.storage_changes)
                        &&& final(self)@.cache.contains_key(address@)
                        &&& final(self)@.cache == old(self)@.cache.insert(
                            address@,
                            final(self)@.cache[address@],
                        )
                        &&& slot_with_account(
                            slot,
                            final(self)@.cache[address@],
                            account@.after_commit_code().with_address_hash(address@),
                        )
                    } else {
                        r == Err::<CommitRequest, StorageError>(StorageError::Encoding)
                            && final(self)@ == old(self)@
                    },
                },
            },
    {
        let ghost before = self@;
        let dirty = match self.cache.get(address) {
            Some(entry) => entry.is_dirty(),
            None => false,
        };
        if !dirty {
            return Ok(CommitRequest::Nothing);
        }
        let entry = match self.cache.remove(address) {
            Some(entry) => entry,
            None => {
                return Ok(CommitRequest::Nothing);
            },
        };
        let AVMAccountEntry { account, old_balance, state } = entry;
        match account {
            None => {
                let _ = self.cache.insert(
                    *address,
                    AVMAccountEntry { account: None, old_balance, state },
                );
                assert(self@.cache =~= before.cache);
                assert(self@.checkpoints =~= before.checkpoints);
                Ok(CommitRequest::Remove { address_hash: blake2b(address.as_bytes().as_slice()) })
            },
            Some(account) => {
                let mut account = account;
                match account.storage_writes() {
                    Err(e) => {
                        let _ = self.cache.insert(
                            *address,
                            AVMAccountEntry { account: Some(account), old_balance, state },
                        );
                        assert(self@.cache =~= before.cache);
                        assert(self@.checkpoints =~= before.checkpoints);
                        Err(e)
                    },
                    Ok(writes) => {
                        let code = account.commit_code();
                        let address_hash = account.address_hash(address);
                        let storage_root = account.storage_root();
                        let _ = self.cache.insert(
                            *address,
                            AVMAccountEntry { account: Some(account), old_balance, state },
                        );
                        assert(self@.cache =~= before.cache.insert(
                            address@,
                            self@.cache[address@],
                        ));
                        assert(self@.checkpoints =~= before.checkpoints);
                        Ok(CommitRequest::Store { address_hash, code, storage_root, writes })
                    },
                }
            },
        }
    }

    /// Finish the commit of the storage of `address`. `applied` says how
    /// the writes to the storage trie went: the new root, or the failure.
    /// On a new root the staged writes of the account are committed, and
    /// the result is what has to be written to the account trie: the fields
    /// of the account, under the hash of the address. Nothing is to be
    /// written, and nothing changes, where the cache has no dirty slot with
    /// an account for the address. On a failure nothing changes and the
    /// failure is returned.
    pub fn finish_commit(&mut self, address: &Address, applied: Result<H256, StorageError>) -> (r:
        Result<Option<(H256, BasicAccount)>, StorageError>)
        requires
            old(self).wf(),
        ensures
            final(self).wf(),
            final(self)@.checkpoints == old(self)@.checkpoints,
            match applied {
                Err(e) => r == Err::<Option<(H256, BasicAccount)>, StorageError>(e) && final(self)@
                    == old(self)@,
                Ok(root) => match dirty_slot(old(self)@.cache, address@) {
                    Some(slot) if slot.account is Some => {
                        let account = slot.account.unwrap()@;
                        &&& r matches Ok(Some((address_hash, basic)))
                        &&& address_hash@ == account.hash_of_address(address@)
                        &&& basic.nonce@ == account.nonce
                        &&& basic.balance@ == account.balance
                        &&& basic.storage_root@ == root@
                        &&& basic.code_hash@ == account.code_hash
                        &&& final(self)@.cache.contains_key(address@)
                        &&& final(self)@.cache == old(self)@.cache.insert(
                            address@,
                            final(self)@.cache[address@],
                        )
                        &&& slot_with_account(
                            slot,
                            final(self)@.cache[address@],
                            account.after_commit(root@).with_address_hash(address@),
                        )
                    },
                    _ => r matches Ok(None) && final(self)@ == old(self)@,
                },
            },
    {
        let ghost before = self@;
        let root = match applied {
            Ok(root) => root,
            Err(e) => {
                return Err(e);
            },
        };
        let present = match self.cache.get(address) {
            Some(entry) => entry.is_dirty() && entry.account.is_some(),
            None => false,
        };
        if !present {
            return Ok(None);
        }
        let entry = match self.cache.remove(address) {
            Some(entry) => entry,
            None => {
                return Ok(None);
            },
        };
        let AVMAccountEntry { account, old_balance, state } = entry;
        match account {
            None => {
                let _ = self.cache.insert(
                    *address,
                    AVMAccountEntry { account: None, old_balance, state },
                );
                assert(self@.cache =~= before.cache);
                assert(self@.checkpoints =~= before.checkpoints);
                Ok(None)
            },
            Some(account) => {
                let mut account = account;
                let _ = account.commit_storage(Ok(root));
                let address_hash = account.address_hash(address);
                let basic = account.basic();
                let _ = self.cache.insert(
                    *address,
                    AVMAccountEntry { account: Some(account), old_balance, state },
                );
                assert(self@.cache =~= before.cache.insert(address@, self@.cache[address@]));
                assert(self@.checkpoints =~= before.checkpoints);
                Ok(Some((address_hash, basic)))
            },
        }
    }

    /// Mark the slot of `address` as written out: a dirty slot becomes a
    /// clean cached one. Nothing changes where the cache has no dirty slot
    /// for the address.
    pub fn mark_committed(&mut self, address: &Address)
        requires
            old(self).wf(),
        ensures
            final(self).wf(),
            final(self)@.checkpoints == old(self)@.checkpoints,
            match dirty_slot(old(self)@.cache, address@) {
                Some(slot) => final(self)@.cache == old(self)@.cache.insert(
                    address@,
                    AVMAccountEntry { state: AccountState::CleanCached, ..slot },
                ),
                None => final(self)@ == old(self)@,
            },
    {
        let ghost before = self@;
        let dirty = match self.cache.get(address) {
            Some(entry) => entry.is_dirty(),
            None => false,
        };
        if !dirty {
            return ;
        }
        match self.cache.remove(address) {
            Some(entry) => {
                let mut entry = entry;
                entry.change_state(AccountState::CleanCached);
                let _ = self.cache.insert(*address, entry);
                assert(self@.cache =~= before.cache.insert(
                    address@,
                    AVMAccountEntry { state: AccountState::CleanCached, ..before.cache[address@] },
                ));
                assert(self@.checkpoints =~= before.checkpoints);
            },
            None => {},
        }
    }
}

} // verus!
