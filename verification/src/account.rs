//! One account's record: balance, nonce, code and storage, with the writes
//! that are staged on it and the reads that it remembers.

use crate::basic_account::BasicAccount;
use crate::bytes::{bytes_view, copy_bytes, is_all_zero, same_bytes};
use crate::codec::{decode_item, encode_item};
use crate::hash::{
    blake2b, blake2b_256, blake2b_empty, blake2b_null_rlp, Address, BLAKE2B_EMPTY_BYTES, H256,
};
use crate::lru::{
    distinct_keys, lookup, lru_clone, lru_entries, lru_get, lru_insert, lru_limit, lru_new,
    Entries,
};
use crate::model::{
    absorbed, committed_value, encodable, lemma_put_absent, lemma_put_at, lemma_put_distinct,
    write_for, writes_for, writes_view, AccountView, Fetched, Filth, StorageError, StorageWrite,
    STORAGE_CACHE_ITEMS,
};
use crate::uint::{max_u256, U256};
use lru_cache::LruCache;
use std::sync::Arc;
use vstd::prelude::*;

verus! {

/// The staged writes as key/value pairs of byte strings.
pub open spec fn staged_view(changes: Seq<(Vec<u8>, Vec<u8>)>) -> Entries {
    Seq::new(changes.len(), |i: int| (changes[i].0@, changes[i].1@))
}

/// One account's state.
#[derive(Debug)]
pub struct AVMAccount {
    // Balance of the account.
    balance: U256,
    // Nonce of the account.
    nonce: U256,
    // Root of the trie that backs the storage.
    storage_root: H256,
    // Recent reads of the trie-backed storage, at most `STORAGE_CACHE_ITEMS`.
    storage_cache: LruCache<Vec<u8>, Vec<u8>>,
    // Writes made by `set_storage` and not committed yet. They take
    // precedence over `storage_cache`.
    storage_changes: Vec<(Vec<u8>, Vec<u8>)>,
    // Code hash of the account.
    code_hash: H256,
    // Size of the account's code.
    code_size: Option<usize>,
    // Code of the account, where it is at hand.
    code_cache: Arc<Vec<u8>>,
    // Whether the code is new or has been modified.
    code_filth: Filth,
    // Hash of the address, once it has been asked for.
    address_hash: Option<H256>,
}

/// The view of a size that may be unknown.
pub open spec fn size_view(size: Option<usize>) -> Option<nat> {
    match size {
        Some(n) => Some(n as nat),
        None => None,
    }
}

/// The view of a hash that may be absent.
pub open spec fn hash_view(hash: Option<H256>) -> Option<Seq<u8>> {
    match hash {
        Some(h) => Some(h@),
        None => None,
    }
}

impl View for AVMAccount {
    type V = AccountView;

    closed spec fn view(&self) -> AccountView {
        AccountView {
            balance: self.balance@,
            nonce: self.nonce@,
            storage_root: self.storage_root@,
            storage_cache: lru_entries(self.storage_cache),
            storage_cache_limit: lru_limit(self.storage_cache),
            storage_changes: staged_view(self.storage_changes@),
            code_hash: self.code_hash@,
            code_size: size_view(self.code_size),
            code_cache: self.code_cache@,
            code_filth: self.code_filth,
            address_hash: hash_view(self.address_hash),
        }
    }
}

/// Calls `Arc::clone`, which hands out one more pointer to the same bytes.
#[verifier::external_body]
fn share_code(code: &Arc<Vec<u8>>) -> (shared: Arc<Vec<u8>>)
    ensures
        shared == code,
{
    Arc::clone(code)
}

/// A copy of the staged writes.
fn copy_changes(changes: &Vec<(Vec<u8>, Vec<u8>)>) -> (r: Vec<(Vec<u8>, Vec<u8>)>)
    ensures
        staged_view(r@) == staged_view(changes@),
{
    let mut out: Vec<(Vec<u8>, Vec<u8>)> = Vec::new();
    let mut i: usize = 0;
    while i < changes.len()
        invariant
            i <= changes.len(),
            out@.len() == i,
            forall|j: int|
                0 <= j < i ==> out@[j].0@ == changes@[j].0@ && out@[j].1@ == changes@[j].1@,
        decreases changes.len() - i,
    {
        out.push((copy_bytes(&changes[i].0), copy_bytes(&changes[i].1)));
        i += 1;
    }
    assert(staged_view(out@) =~= staged_view(changes@));
    out
}

impl Clone for AVMAccount {
    fn clone(&self) -> (r: AVMAccount)
        ensures
            r@ == self@,
    {
        AVMAccount {
            balance: self.balance,
            nonce: self.nonce,
            storage_root: self.storage_root,
            storage_cache: lru_clone(&self.storage_cache),
            storage_changes: copy_changes(&self.storage_changes),
            code_hash: self.code_hash,
            code_size: self.code_size,
            code_cache: share_code(&self.code_cache),
            code_filth: self.code_filth,
            address_hash: self.address_hash,
        }
    }
}

impl AVMAccount {
    /// Create a new account with the given balance and nonce, known to have
    /// no code.
    pub fn new_basic(balance: U256, nonce: U256) -> (r: AVMAccount)
        ensures
            r@ == AccountView::fresh(balance@, nonce@, Some(0nat)),
            r@.well_formed(),
    {
        let r = AVMAccount {
            balance: balance,
            nonce: nonce,
            storage_root: blake2b_null_rlp(),
            storage_cache: lru_new(STORAGE_CACHE_ITEMS),
            storage_changes: Vec::new(),
            code_hash: blake2b_empty(),
            code_cache: Arc::new(Vec::new()),
            code_size: Some(0),
            code_filth: Filth::Clean,
            address_hash: None,
        };
        assert(r@.storage_changes =~= Seq::empty());
        r
    }

    /// The balance of the account.
    pub fn balance(&self) -> (r: &U256)
        ensures
            r@ == self@.balance,
    {
        &self.balance
    }

    /// The nonce of the account.
    pub fn nonce(&self) -> (r: &U256)
        ensures
            r@ == self@.nonce,
    {
        &self.nonce
    }

    /// The root of the trie that backs the storage.
    pub fn storage_root(&self) -> (r: H256)
        ensures
            r@ == self@.storage_root,
    {
        self.storage_root
    }

    /// The hash of the account's code.
    pub fn code_hash(&self) -> (r: H256)
        ensures
            r@ == self@.code_hash,
    {
        self.code_hash
    }

    /// The size of the account's code, where it is known.
    pub fn code_size(&self) -> (r: Option<usize>)
        ensures
            size_view(r) == self@.code_size,
    {
        self.code_size
    }

    /// Create a new contract account.
    /// NOTE: make sure you use `init_code` on this before committing.
    pub fn new_contract(balance: U256, nonce: U256) -> (r: AVMAccount)
        ensures
            r@ == AccountView::fresh(balance@, nonce@, None),
            r@.well_formed(),
    {
        let r = AVMAccount {
            balance: balance,
            nonce: nonce,
            storage_root: blake2b_null_rlp(),
            storage_cache: lru_new(STORAGE_CACHE_ITEMS),
            storage_changes: Vec::new(),
            code_hash: blake2b_empty(),
            code_cache: Arc::new(Vec::new()),
            code_size: None,
            code_filth: Filth::Clean,
            address_hash: None,
        };
        assert(r@.storage_changes =~= Seq::empty());
        r
    }

    /// A copy of the account without what it remembers of its storage and
    /// without its staged writes.
    pub fn clone_basic(&self) -> (r: AVMAccount)
        ensures
            r@ == (AccountView {
                storage_cache: Seq::empty(),
                storage_cache_limit: STORAGE_CACHE_ITEMS as nat,
                storage_changes: Seq::empty(),
                ..self@
            }),
            r@.well_formed(),
    {
        let r = AVMAccount {
            balance: self.balance,
            nonce: self.nonce,
            storage_root: self.storage_root,
            storage_cache: lru_new(STORAGE_CACHE_ITEMS),
            storage_changes: Vec::new(),
            code_hash: self.code_hash,
            code_size: self.code_size,
            code_cache: share_code(&self.code_cache),
            code_filth: self.code_filth,
            address_hash: self.address_hash,
        };
        assert(r@.storage_changes =~= Seq::empty());
        r
    }

    /// Increment the nonce of the account by one.
    pub fn inc_nonce(&mut self)
        requires
            old(self)@.nonce < max_u256(),
        ensures
            final(self)@ == (AccountView { nonce: old(self)@.nonce + 1, ..old(self)@ }),
    {
        let one = U256::from_u64(1);
        match self.nonce.checked_add(&one) {
            Some(next) => {
                self.nonce = next;
            },
            None => {},
        }
    }

    /// Increase account balance.
    pub fn add_balance(&mut self, x: &U256)
        requires
            old(self)@.balance + x@ <= max_u256(),
        ensures
            final(self)@ == (AccountView { balance: old(self)@.balance + x@, ..old(self)@ }),
    {
        match self.balance.checked_add(x) {
            Some(sum) => {
                self.balance = sum;
            },
            None => {},
        }
    }

    /// Decrease account balance by `x`, or fail and change nothing where the
    /// balance is less than `x`.
    pub fn sub_balance(&mut self, x: &U256) -> (r: Result<(), InsufficientBalance>)
        ensures
            r is Ok <==> old(self)@.balance >= x@,
            r is Ok ==> final(self)@ == (AccountView {
                balance: (old(self)@.balance - x@) as nat,
                ..old(self)@
            }),
            r is Err ==> final(self)@ == old(self)@,
    {
        match self.balance.checked_sub(x) {
            Some(rest) => {
                self.balance = rest;
                Ok(())
            },
            None => Err(InsufficientBalance),
        }
    }

    /// Set this account's code to the given code.
    /// NOTE: Account should have been created with `new_contract()`
    pub fn init_code(&mut self, code: Vec<u8>)
        ensures
            final(self)@ == (AccountView {
                code_hash: blake2b_256(code@),
                code_cache: code@,
                code_size: Some(code@.len()),
                code_filth: Filth::Dirty,
                ..old(self)@
            }),
    {
        self.code_hash = blake2b(code.as_slice());
        self.code_size = Some(code.len());
        self.code_cache = Arc::new(code);
        self.code_filth = Filth::Dirty;
    }

    /// The account's code, where it is held and not empty. On `None` the
    /// code has to be brought with `cache_code` first.
    pub fn code(&self) -> (r: Option<Arc<Vec<u8>>>)
        ensures
            match r {
                Some(code) => code@ == self@.code_cache && self@.code_cache.len() > 0,
                None => self@.code_cache.len() == 0,
            },
    {
        if self.code_cache.len() == 0 {
            return None;
        }
        Some(share_code(&self.code_cache))
    }

    /// Hold the given code, whatever was held before.
    pub fn cache_given_code(&mut self, code: Arc<Vec<u8>>)
        ensures
            final(self)@ == (AccountView {
                code_cache: code@,
                code_size: Some(code@.len()),
                ..old(self)@
            }),
    {
        self.code_size = Some(code.len());
        self.code_cache = code;
    }

    /// Whether the code is at hand: it is held, or the account has none.
    pub fn is_cached(&self) -> (r: bool)
        ensures
            r == self@.is_cached(),
    {
        self.code_cache.len() > 0 || self.code_hash == blake2b_empty()
    }

    /// Whether the store has to be asked before `cache_code_size` can tell
    /// the size of the code: the size is unknown and the account has code.
    pub fn needs_code_size(&self) -> (r: bool)
        ensures
            r == (self@.code_size is None && self@.code_hash != BLAKE2B_EMPTY_BYTES@),
    {
        self.code_size.is_none() && self.code_hash != blake2b_empty()
    }

    /// Make the size of the code known. `fetched` is the length of what the
    /// store holds under the code hash, `None` where it holds nothing; it is
    /// looked at only where the size is unknown and the account has code.
    /// Returns whether the size is known afterwards.
    pub fn cache_code_size(&mut self, fetched: Option<usize>) -> (r: bool)
        ensures
            r == (old(self)@.code_size is Some || (old(self)@.code_hash != BLAKE2B_EMPTY_BYTES@
                && fetched is Some)),
            final(self)@ == (AccountView {
                code_size: if old(self)@.code_size is None && r {
                    size_view(fetched)
                } else {
                    old(self)@.code_size
                },
                ..old(self)@
            }),
    {
        if self.code_size.is_some() {
            return true;
        }
        if self.code_hash == blake2b_empty() {
            return false;
        }
        match fetched {
            Some(size) => {
                self.code_size = Some(size);
                true
            },
            None => false,
        }
    }

    /// Bring the code to hand. `fetched` is what the store holds under the
    /// code hash, `None` where it holds nothing; it is looked at only where
    /// the code is not at hand already. Returns the code, or `None` where it
    /// is unavailable.
    pub fn cache_code(&mut self, fetched: Option<Vec<u8>>) -> (r: Option<Arc<Vec<u8>>>)
        ensures
            old(self)@.is_cached() ==> final(self)@ == old(self)@ && r is Some && r.unwrap()@
                == old(self)@.code_cache,
            !old(self)@.is_cached() && fetched is Some ==> final(self)@ == (AccountView {
                code_cache: fetched.unwrap()@,
                code_size: Some(fetched.unwrap()@.len()),
                ..old(self)@
            }) && r is Some && r.unwrap()@ == fetched.unwrap()@,
            !old(self)@.is_cached() && fetched is None ==> final(self)@ == old(self)@ && r is None,
    {
        if self.is_cached() {
            return Some(share_code(&self.code_cache));
        }
        match fetched {
            Some(code) => {
                self.code_size = Some(code.len());
                self.code_cache = Arc::new(code);
                Some(share_code(&self.code_cache))
            },
            None => None,
        }
    }

    /// The hash of the address that owns the account. It is computed once
    /// and remembered: later calls return what the first one computed.
    pub fn address_hash(&mut self, address: &Address) -> (r: H256)
        ensures
            r@ == old(self)@.hash_of_address(address@),
            final(self)@ == old(self)@.with_address_hash(address@),
    {
        match self.address_hash {
            Some(hash) => hash,
            None => {
                let hash = blake2b(address.as_bytes().as_slice());
                self.address_hash = Some(hash);
                hash
            },
        }
    }

    /// Commit any unsaved code. Returns what has to be written to the
    /// store, the code under its hash, where the code is dirty and not
    /// empty; the code is clean afterwards.
    pub fn commit_code(&mut self) -> (r: Option<(H256, Arc<Vec<u8>>)>)
        ensures
            code_view(r) == old(self)@.code_to_write(),
            final(self)@ == old(self)@.after_commit_code(),
    {
        if self.code_filth == Filth::Clean {
            return None;
        }
        self.code_size = Some(self.code_cache.len());
        self.code_filth = Filth::Clean;
        if self.code_cache.len() == 0 {
            None
        } else {
            Some((self.code_hash, share_code(&self.code_cache)))
        }
    }

    /// The fields of the account that the account trie stores.
    pub closed spec fn basic_fields(&self) -> BasicAccount {
        BasicAccount {
            nonce: self.nonce,
            balance: self.balance,
            storage_root: self.storage_root,
            code_hash: self.code_hash,
        }
    }

    /// The fields of the account that the account trie stores.
    pub fn basic(&self) -> (r: BasicAccount)
        ensures
            r == self.basic_fields(),
            r.nonce@ == self@.nonce,
            r.balance@ == self@.balance,
            r.storage_root@ == self@.storage_root,
            r.code_hash@ == self@.code_hash,
    {
        BasicAccount {
            nonce: self.nonce,
            balance: self.balance,
            storage_root: self.storage_root,
            code_hash: self.code_hash,
        }
    }

    /// The account that the encoded list `rlp` holds: nothing staged or
    /// remembered, the code not at hand, its size unknown. `None` where the
    /// list holds no account.
    pub fn from_rlp(rlp: &[u8]) -> (r: Option<AVMAccount>)
        ensures
            match r {
                Some(account) => {
                    &&& BasicAccount::read_from(rlp@, Some(account.basic_fields()))
                    &&& account@ == (AccountView {
                        balance: account.basic_fields().balance@,
                        nonce: account.basic_fields().nonce@,
                        storage_root: account.basic_fields().storage_root@,
                        code_hash: account.basic_fields().code_hash@,
                        ..AccountView::fresh(0, 0, None)
                    })
                },
                None => BasicAccount::read_from(rlp@, None),
            },
    {
        match BasicAccount::from_rlp(rlp) {
            Some(basic) => Some(AVMAccount::from_basic(basic)),
            None => None,
        }
    }

    /// The account that the account trie stores as `basic`: nothing staged
    /// or remembered, the code not at hand, its size unknown.
    pub fn from_basic(basic: BasicAccount) -> (r: AVMAccount)
        ensures
            r.basic_fields() == basic,
            r@ == (AccountView {
                balance: basic.balance@,
                nonce: basic.nonce@,
                storage_root: basic.storage_root@,
                code_hash: basic.code_hash@,
                ..AccountView::fresh(0, 0, None)
            }),
            r@.well_formed(),
    {
        let r = AVMAccount {
            balance: basic.balance,
            nonce: basic.nonce,
            storage_root: basic.storage_root,
            storage_cache: lru_new(STORAGE_CACHE_ITEMS),
            storage_changes: Vec::new(),
            code_hash: basic.code_hash,
            code_size: None,
            code_cache: Arc::new(Vec::new()),
            code_filth: Filth::Clean,
            address_hash: None,
        };
        assert(r@.storage_changes =~= Seq::empty());
        r
    }

    /// Check if account has zero nonce, balance, no code.
    pub fn is_null(&self) -> (r: bool)
        ensures
            r == self@.is_null(),
    {
        self.balance.is_zero() && self.nonce.is_zero() && self.code_hash == blake2b_empty()
    }

    /// Determine whether there are any uncommitted writes to the storage.
    pub fn storage_is_clean(&self) -> (r: bool)
        ensures
            r == (self@.storage_changes.len() == 0),
    {
        self.storage_changes.len() == 0
    }

    /// Check if account has zero nonce, balance, no code and no storage.
    /// May only be asked while no write is staged.
    pub fn is_empty(&self) -> (r: bool)
        requires
            self@.storage_changes.len() == 0,
        ensures
            r == self@.is_empty(),
    {
        self.is_null() && self.storage_root == blake2b_null_rlp()
    }

    /// The staged writes.
    pub fn storage_changes(&self) -> (r: &Vec<(Vec<u8>, Vec<u8>)>)
        ensures
            staged_view(r@) == self@.storage_changes,
    {
        &self.storage_changes
    }

    /// Drop the staged writes; what the account remembers of its storage
    /// stays.
    pub fn discard_storage_changes(&mut self)
        ensures
            final(self)@ == (AccountView { storage_changes: Seq::empty(), ..old(self)@ }),
    {
        self.storage_changes = Vec::new();
        assert(self@.storage_changes =~= Seq::empty());
    }

    /// Stage `value` under `key`, over any value staged for the key before.
    /// Neither the remembered reads nor the trie are touched.
    pub fn set_storage(&mut self, key: Vec<u8>, value: Vec<u8>)
        ensures
            final(self)@ == old(self)@.with_storage(key@, value@),
            old(self)@.well_formed() ==> final(self)@.well_formed(),
    {
        let mut i: usize = self.storage_changes.len();
        while i > 0
            invariant
                i <= self.storage_changes.len(),
                *self == *old(self),
                forall|j: int|
                    i <= j < self.storage_changes.len() ==> self.storage_changes@[j].0@ != key@,
            decreases i,
        {
            if same_bytes(&self.storage_changes[i - 1].0, &key) {
                proof {
                    lemma_put_at(staged_view(self.storage_changes@), key@, value@, i - 1);
                    if distinct_keys(self@.storage_changes) {
                        lemma_put_distinct(self@.storage_changes, key@, value@);
                    }
                }
                self.storage_changes.set(i - 1, (key, value));
                assert(staged_view(self.storage_changes@) =~= staged_view(
                    old(self).storage_changes@,
                ).update(i - 1, (key@, value@)));
                return ;
            }
            i -= 1;
        }
        proof {
            lemma_put_absent(staged_view(self.storage_changes@), key@, value@);
            if distinct_keys(self@.storage_changes) {
                lemma_put_distinct(self@.storage_changes, key@, value@);
            }
        }
        self.storage_changes.push((key, value));
        assert(staged_view(self.storage_changes@) =~= staged_view(
            old(self).storage_changes@,
        ).push((key@, value@)));
    }

    /// What the account itself holds for `key`: the staged value before the
    /// remembered one, `None` where it holds neither. A remembered read that
    /// is consulted becomes the most recently used one.
    pub fn cached_storage_at(&mut self, key: &Vec<u8>) -> (r: Option<Vec<u8>>)
        ensures
            bytes_view(r) == old(self)@.cached_value(key@),
            final(self)@ == old(self)@.after_cached_read(key@),
    {
        match self.staged_at(key) {
            Some(value) => Some(value),
            None => lru_get(&mut self.storage_cache, key),
        }
    }

    /// The staged value of `key`.
    fn staged_at(&self, key: &Vec<u8>) -> (r: Option<Vec<u8>>)
        ensures
            bytes_view(r) == lookup(self@.storage_changes, key@),
    {
        let ghost staged = staged_view(self.storage_changes@);
        let mut i: usize = self.storage_changes.len();
        assert(staged.take(i as int) == staged);
        while i > 0
            invariant
                i <= self.storage_changes.len(),
                staged == staged_view(self.storage_changes@),
                lookup(staged, key@) == lookup(staged.take(i as int), key@),
            decreases i,
        {
            assert(staged.take(i as int).drop_last() == staged.take(i - 1));
            if same_bytes(&self.storage_changes[i - 1].0, key) {
                return Some(copy_bytes(&self.storage_changes[i - 1].1));
            }
            i -= 1;
        }
        None
    }

    /// The value of the storage at `key`: the staged value, else the
    /// remembered one, else the value that `fetched` stands for, which is
    /// then remembered. `fetched` is the answer of the trie under the
    /// account's storage root to a read of `key`: the stored bytes, nothing,
    /// or a failure; it is looked at only where the account itself holds no
    /// value for the key. A key that the trie does not hold has the empty
    /// value.
    pub fn storage_at(&mut self, key: &Vec<u8>, fetched: Result<Option<Vec<u8>>, StorageError>) -> (r:
        Result<Vec<u8>, StorageError>)
        ensures
            value_view(r) == old(self)@.storage_value(key@, fetched_view(fetched)),
            final(self)@ == old(self)@.after_storage_read(key@, fetched_view(fetched)),
    {
        match self.cached_storage_at(key) {
            Some(value) => {
                return Ok(value);
            },
            None => {},
        }
        let value: Vec<u8> = match fetched {
            Err(e) => {
                return Err(e);
            },
            Ok(None) => Vec::new(),
            Ok(Some(raw)) => match decode_item(raw.as_slice()) {
                Some(value) => value,
                None => {
                    return Err(StorageError::Encoding);
                },
            },
        };
        let _ = lru_insert(&mut self.storage_cache, copy_bytes(key), copy_bytes(&value));
        Ok(value)
    }

    /// The writes that commit the staged writes to the storage trie, in the
    /// order in which the keys were staged: a key whose value is zero bytes
    /// only is removed, any other is set to its encoded value. Fails, with
    /// `StorageError::Encoding`, where a staged value is too long to encode.
    pub fn storage_writes(&self) -> (r: Result<Vec<StorageWrite>, StorageError>)
        ensures
            match r {
                Ok(writes) => encodable(self@.storage_changes) && writes_view(writes@)
                    == writes_for(self@.storage_changes),
                Err(e) => !encodable(self@.storage_changes) && e == StorageError::Encoding,
            },
    {
        let ghost staged = staged_view(self.storage_changes@);
        let mut writes: Vec<StorageWrite> = Vec::new();
        let mut i: usize = 0;
        while i < self.storage_changes.len()
            invariant
                i <= self.storage_changes.len(),
                staged == staged_view(self.storage_changes@),
                writes@.len() == i,
                forall|j: int| 0 <= j < i ==> (#[trigger] staged[j]).1.len() <= u32::MAX,
                forall|j: int|
                    0 <= j < i ==> (#[trigger] writes@[j])@ == write_for(staged[j].0, staged[j].1),
            decreases self.storage_changes.len() - i,
        {
            let key = copy_bytes(&self.storage_changes[i].0);
            let value = &self.storage_changes[i].1;
            assert(staged[i as int].1 == value@);
            let write = if is_all_zero(value) {
                if value.len() > 0xffff_ffff {
                    return Err(StorageError::Encoding);
                }
                StorageWrite::Remove { key }
            } else {
                match encode_item(value) {
                    Some(encoded) => StorageWrite::Insert { key, value: encoded },
                    None => {
                        return Err(StorageError::Encoding);
                    },
                }
            };
            writes.push(write);
            i += 1;
        }
        assert(writes_view(writes@) =~= writes_for(staged));
        Ok(writes)
    }

    /// Commit the staged writes. `applied` says how writing them to the trie
    /// went: the new root of the trie, or the failure. On a new root the
    /// staged writes are gone, each committed value is remembered, and the
    /// storage root is the new root. On a failure nothing changes and the
    /// failure is returned.
    pub fn commit_storage(&mut self, applied: Result<H256, StorageError>) -> (r: Result<
        (),
        StorageError,
    >)
        ensures
            match applied {
                Ok(root) => r is Ok && final(self)@ == old(self)@.after_commit(root@),
                Err(e) => r == Err::<(), StorageError>(e) && final(self)@ == old(self)@,
            },
    {
        let root = match applied {
            Ok(root) => root,
            Err(e) => {
                return Err(e);
            },
        };
        let ghost staged = staged_view(self.storage_changes@);
        let ghost cache = self@.storage_cache;
        let ghost limit = self@.storage_cache_limit;
        let mut i: usize = 0;
        while i < self.storage_changes.len()
            invariant
                i <= self.storage_changes.len(),
                self.storage_changes == old(self).storage_changes,
                staged == staged_view(self.storage_changes@),
                self@ == (AccountView {
                    storage_cache: absorbed(cache, limit, staged.take(i as int)),
                    ..old(self)@
                }),
                old(self)@.storage_cache_limit == limit,
            decreases self.storage_changes.len() - i,
        {
            let key = copy_bytes(&self.storage_changes[i].0);
            let value = if is_all_zero(&self.storage_changes[i].1) {
                Vec::new()
            } else {
                copy_bytes(&self.storage_changes[i].1)
            };
            assert(staged.take(i + 1).drop_last() == staged.take(i as int));
            assert(value@ == committed_value(staged.take(i + 1).last().1));
            let _ = lru_insert(&mut self.storage_cache, key, value);
            i += 1;
        }
        assert(staged.take(staged.len() as int) == staged);
        self.storage_changes = Vec::new();
        self.storage_root = root;
        assert(self@.storage_changes =~= Seq::empty());
        Ok(())
    }
}

/// What is written to the store for the code, as mathematics.
pub open spec fn code_view(code: Option<(H256, Arc<Vec<u8>>)>) -> Option<(Seq<u8>, Seq<u8>)> {
    match code {
        Some((hash, bytes)) => Some((hash@, bytes@)),
        None => None,
    }
}

/// The balance is less than the amount that was to be taken from it.
#[derive(Clone, Copy, Debug, PartialEq, Eq)]
pub struct InsufficientBalance;

/// The answer of the trie to a read, as mathematics.
pub open spec fn fetched_view(fetched: Result<Option<Vec<u8>>, StorageError>) -> Fetched {
    match fetched {
        Ok(Some(raw)) => Ok(Some(raw@)),
        Ok(None) => Ok(None),
        Err(e) => Err(e),
    }
}

/// The outcome of a read, as mathematics.
pub open spec fn value_view(value: Result<Vec<u8>, StorageError>) -> Result<Seq<u8>, StorageError> {
    match value {
        Ok(v) => Ok(v@),
        Err(e) => Err(e),
    }
}

} // verus!
