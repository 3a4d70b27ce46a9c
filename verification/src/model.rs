//! The mathematical model of an account record: what it holds, and what
//! each operation makes of it.

use crate::bytes::all_zero;
use crate::codec::{lemma_decode_encode, rlp_bytes, rlp_item_value};
use crate::hash::{blake2b_256, BLAKE2B_EMPTY_BYTES, BLAKE2B_NULL_RLP_BYTES, H256};
use crate::lru::{
    distinct_keys, inserted, lemma_lookup_inserted, lemma_lookup_push, lemma_lookup_touched,
    lookup, touched, Entries,
};
use vstd::prelude::*;

verus! {

/// The number of storage reads that a record remembers.
pub const STORAGE_CACHE_ITEMS: usize = 8192;

/// Whether data has been changed since it was last written out.
#[derive(PartialEq, Eq, Clone, Copy, Debug, Structural)]
pub enum Filth {
    /// Data has not been changed.
    Clean,
    /// Data has been changed.
    Dirty,
}

/// A failure of the trie that backs the storage.
#[derive(Clone, Copy, Debug, PartialEq, Eq)]
pub enum StorageError {
    /// The trie has no node for this root.
    InvalidStateRoot(H256),
    /// A node of the trie is missing from the store.
    IncompleteDatabase(H256),
    /// A stored value is not the encoding of a byte string, or a staged
    /// value is too long to be encoded.
    Encoding,
}

/// One write to the storage trie.
#[derive(Clone, Debug, PartialEq, Eq)]
pub enum StorageWrite {
    /// Take the key out of the trie.
    Remove { key: Vec<u8> },
    /// Set the key to the encoded value.
    Insert { key: Vec<u8>, value: Vec<u8> },
}

/// One write to the storage trie, as mathematics.
pub enum WriteView {
    Remove { key: Seq<u8> },
    Insert { key: Seq<u8>, value: Seq<u8> },
}

impl View for StorageWrite {
    type V = WriteView;

    open spec fn view(&self) -> WriteView {
        match *self {
            StorageWrite::Remove { key } => WriteView::Remove { key: key@ },
            StorageWrite::Insert { key, value } => WriteView::Insert { key: key@, value: value@ },
        }
    }
}

/// The writes of a plan, as mathematics.
pub open spec fn writes_view(writes: Seq<StorageWrite>) -> Seq<WriteView> {
    Seq::new(writes.len(), |i: int| writes[i]@)
}

/// What a record holds, as mathematics.
pub struct AccountView {
    pub balance: nat,
    pub nonce: nat,
    pub storage_root: Seq<u8>,
    /// The remembered reads, from the least to the most recently used.
    pub storage_cache: Entries,
    /// The number of reads that are remembered at most.
    pub storage_cache_limit: nat,
    /// The staged writes, in the order in which their keys were first staged.
    pub storage_changes: Entries,
    pub code_hash: Seq<u8>,
    pub code_size: Option<nat>,
    pub code_cache: Seq<u8>,
    pub code_filth: Filth,
    pub address_hash: Option<Seq<u8>>,
}

/// The answer of the trie to a read, as mathematics: the stored bytes, or
/// nothing stored, or a failure.
pub type Fetched = Result<Option<Seq<u8>>, StorageError>;

/// `entries` with the value of the last pair for `key` replaced by `value`.
pub open spec fn replaced(entries: Entries, key: Seq<u8>, value: Seq<u8>) -> Entries
    decreases entries.len(),
{
    if entries.len() == 0 {
        entries
    } else if entries.last().0 == key {
        entries.drop_last().push((key, value))
    } else {
        replaced(entries.drop_last(), key, value).push(entries.last())
    }
}

/// `entries` with `key` set to `value`: in place where the key is staged
/// already, at the end where it is not.
pub open spec fn put(entries: Entries, key: Seq<u8>, value: Seq<u8>) -> Entries {
    if lookup(entries, key) is Some {
        replaced(entries, key, value)
    } else {
        entries.push((key, value))
    }
}

/// The trie write that commits `value` under `key`: a value of zero bytes
/// only removes the key, any other is stored encoded.
pub open spec fn write_for(key: Seq<u8>, value: Seq<u8>) -> WriteView {
    if all_zero(value) {
        WriteView::Remove { key }
    } else {
        WriteView::Insert { key, value: rlp_bytes(value) }
    }
}

/// The trie writes that commit the staged writes, in their order.
pub open spec fn writes_for(staged: Entries) -> Seq<WriteView> {
    Seq::new(staged.len(), |i: int| write_for(staged[i].0, staged[i].1))
}

/// Every staged value is short enough to be encoded.
pub open spec fn encodable(staged: Entries) -> bool {
    forall|i: int| 0 <= i < staged.len() ==> (#[trigger] staged[i]).1.len() <= u32::MAX
}

/// What a read finds after `value` was committed: nothing for a value of
/// zero bytes only, else the value.
pub open spec fn committed_value(value: Seq<u8>) -> Seq<u8> {
    if all_zero(value) {
        Seq::empty()
    } else {
        value
    }
}

/// The remembered reads after the staged writes were committed: each
/// committed value is remembered in turn.
pub open spec fn absorbed(cache: Entries, limit: nat, staged: Entries) -> Entries
    decreases staged.len(),
{
    if staged.len() == 0 {
        cache
    } else {
        inserted(
            absorbed(cache, limit, staged.drop_last()),
            limit,
            staged.last().0,
            committed_value(staged.last().1),
        )
    }
}

/// The content of a trie after one write.
pub open spec fn apply_write(trie: Map<Seq<u8>, Seq<u8>>, write: WriteView) -> Map<
    Seq<u8>,
    Seq<u8>,
> {
    match write {
        WriteView::Remove { key } => trie.remove(key),
        WriteView::Insert { key, value } => trie.insert(key, value),
    }
}

/// The content of a trie after the writes, made in their order.
pub open spec fn apply_writes(trie: Map<Seq<u8>, Seq<u8>>, writes: Seq<WriteView>) -> Map<
    Seq<u8>,
    Seq<u8>,
>
    decreases writes.len(),
{
    if writes.len() == 0 {
        trie
    } else {
        apply_write(apply_writes(trie, writes.drop_last()), writes.last())
    }
}

/// What a trie with the given content answers to a read of `key`.
pub open spec fn trie_answer(trie: Map<Seq<u8>, Seq<u8>>, key: Seq<u8>) -> Fetched {
    if trie.contains_key(key) {
        Ok(Some(trie[key]))
    } else {
        Ok(None)
    }
}

/// The value that the answer of the trie stands for: the empty value where
/// nothing is stored, the decoded bytes where something is.
pub open spec fn fetched_value(fetched: Fetched) -> Result<Seq<u8>, StorageError> {
    match fetched {
        Err(e) => Err(e),
        Ok(None) => Ok(Seq::empty()),
        Ok(Some(raw)) => match rlp_item_value(raw) {
            Some(value) => Ok(value),
            None => Err(StorageError::Encoding),
        },
    }
}

impl AccountView {
    /// A record without code, storage or staged writes.
    pub open spec fn fresh(balance: nat, nonce: nat, code_size: Option<nat>) -> AccountView {
        AccountView {
            balance,
            nonce,
            storage_root: BLAKE2B_NULL_RLP_BYTES@,
            storage_cache: Seq::empty(),
            storage_cache_limit: STORAGE_CACHE_ITEMS as nat,
            storage_changes: Seq::empty(),
            code_hash: BLAKE2B_EMPTY_BYTES@,
            code_size,
            code_cache: Seq::empty(),
            code_filth: Filth::Clean,
            address_hash: None,
        }
    }

    /// What holds of every record: no key is staged twice, and the record
    /// remembers at most `STORAGE_CACHE_ITEMS` reads.
    pub open spec fn well_formed(self) -> bool {
        &&& distinct_keys(self.storage_changes)
        &&& self.storage_cache_limit == STORAGE_CACHE_ITEMS
    }

    /// Zero balance, zero nonce and no code.
    pub open spec fn is_null(self) -> bool {
        self.balance == 0 && self.nonce == 0 && self.code_hash == BLAKE2B_EMPTY_BYTES@
    }

    /// Null, and no storage either.
    pub open spec fn is_empty(self) -> bool {
        self.is_null() && self.storage_root == BLAKE2B_NULL_RLP_BYTES@
    }

    /// The code is at hand: it is held, or there is none to hold.
    pub open spec fn is_cached(self) -> bool {
        self.code_cache.len() > 0 || self.code_hash == BLAKE2B_EMPTY_BYTES@
    }

    /// The hash of the owning address: the remembered one, or that of
    /// `address` where none is remembered.
    pub open spec fn hash_of_address(self, address: Seq<u8>) -> Seq<u8> {
        match self.address_hash {
            Some(hash) => hash,
            None => blake2b_256(address),
        }
    }

    /// The record after the hash of the owning address was asked for.
    pub open spec fn with_address_hash(self, address: Seq<u8>) -> AccountView {
        AccountView { address_hash: Some(self.hash_of_address(address)), ..self }
    }

    /// What a commit of the code writes to the store: the code under its
    /// hash, where the code is dirty and not empty.
    pub open spec fn code_to_write(self) -> Option<(Seq<u8>, Seq<u8>)> {
        if self.code_filth == Filth::Dirty && self.code_cache.len() > 0 {
            Some((self.code_hash, self.code_cache))
        } else {
            None
        }
    }

    /// The record after its code was committed: dirty code is clean and its
    /// size is known.
    pub open spec fn after_commit_code(self) -> AccountView {
        if self.code_filth == Filth::Dirty {
            AccountView {
                code_size: Some(self.code_cache.len()),
                code_filth: Filth::Clean,
                ..self
            }
        } else {
            self
        }
    }

    /// The record after `value` was staged under `key`.
    pub open spec fn with_storage(self, key: Seq<u8>, value: Seq<u8>) -> AccountView {
        AccountView { storage_changes: put(self.storage_changes, key, value), ..self }
    }

    /// The value that the record itself holds for `key`: the staged one
    /// before the remembered one.
    pub open spec fn cached_value(self, key: Seq<u8>) -> Option<Seq<u8>> {
        match lookup(self.storage_changes, key) {
            Some(value) => Some(value),
            None => lookup(self.storage_cache, key),
        }
    }

    /// The record after it was asked what it holds for `key`: a remembered
    /// read that was consulted becomes the most recently used one.
    pub open spec fn after_cached_read(self, key: Seq<u8>) -> AccountView {
        if lookup(self.storage_changes, key) is Some {
            self
        } else {
            AccountView { storage_cache: touched(self.storage_cache, key), ..self }
        }
    }

    /// The value of the storage at `key`, where the trie answers `fetched`
    /// when it is asked.
    pub open spec fn storage_value(self, key: Seq<u8>, fetched: Fetched) -> Result<
        Seq<u8>,
        StorageError,
    > {
        match self.cached_value(key) {
            Some(value) => Ok(value),
            None => fetched_value(fetched),
        }
    }

    /// The record after a read of the storage at `key`: a value that came
    /// from the trie is remembered.
    pub open spec fn after_storage_read(self, key: Seq<u8>, fetched: Fetched) -> AccountView {
        match self.cached_value(key) {
            Some(_) => self.after_cached_read(key),
            None => match fetched_value(fetched) {
                Ok(value) => AccountView {
                    storage_cache: inserted(
                        self.storage_cache,
                        self.storage_cache_limit,
                        key,
                        value,
                    ),
                    ..self
                },
                Err(_) => self,
            },
        }
    }

    /// The record after its staged writes were written to the trie, which
    /// then has the root `root`.
    pub open spec fn after_commit(self, root: Seq<u8>) -> AccountView {
        AccountView {
            storage_root: root,
            storage_cache: absorbed(
                self.storage_cache,
                self.storage_cache_limit,
                self.storage_changes,
            ),
            storage_changes: Seq::empty(),
            ..self
        }
    }
}

/// Replacing the value of a key leaves what every other key holds.
pub proof fn lemma_lookup_replaced(entries: Entries, key: Seq<u8>, value: Seq<u8>, other: Seq<u8>)
    ensures
        lookup(replaced(entries, key, value), other) == if other == key && lookup(entries, key)
            is Some {
            Some(value)
        } else {
            lookup(entries, other)
        },
    decreases entries.len(),
{
    if entries.len() == 0 {
    } else if entries.last().0 == key {
        lemma_lookup_push(entries.drop_last(), key, value, other);
    } else {
        lemma_lookup_replaced(entries.drop_last(), key, value, other);
        lemma_lookup_push(
            replaced(entries.drop_last(), key, value),
            entries.last().0,
            entries.last().1,
            other,
        );
    }
}

/// A key that was put holds the new value, and every other key holds what
/// it held.
pub proof fn lemma_lookup_put(entries: Entries, key: Seq<u8>, value: Seq<u8>, other: Seq<u8>)
    ensures
        lookup(put(entries, key, value), other) == if other == key {
            Some(value)
        } else {
            lookup(entries, other)
        },
{
    lemma_lookup_replaced(entries, key, value, other);
    lemma_lookup_push(entries, key, value, other);
}

/// Where `key` is staged last at `index`, putting it replaces that pair.
pub proof fn lemma_put_at(entries: Entries, key: Seq<u8>, value: Seq<u8>, index: int)
    requires
        0 <= index < entries.len(),
        entries[index].0 == key,
        forall|j: int| index < j < entries.len() ==> entries[j].0 != key,
    ensures
        lookup(entries, key) is Some,
        put(entries, key, value) == entries.update(index, (key, value)),
    decreases entries.len(),
{
    if index == entries.len() - 1 {
        assert(entries.drop_last().push((key, value)) =~= entries.update(index, (key, value)));
    } else {
        lemma_put_at(entries.drop_last(), key, value, index);
        assert(entries.drop_last().update(index, (key, value)).push(entries.last())
            =~= entries.update(index, (key, value)));
    }
}

/// Where `key` is not staged, putting it adds a pair at the end.
pub proof fn lemma_put_absent(entries: Entries, key: Seq<u8>, value: Seq<u8>)
    requires
        forall|j: int| 0 <= j < entries.len() ==> entries[j].0 != key,
    ensures
        lookup(entries, key) is None,
        put(entries, key, value) == entries.push((key, value)),
    decreases entries.len(),
{
    if entries.len() > 0 {
        lemma_put_absent(entries.drop_last(), key, value);
    }
}

/// Putting a key keeps the keys apart.
pub proof fn lemma_put_distinct(entries: Entries, key: Seq<u8>, value: Seq<u8>)
    requires
        distinct_keys(entries),
    ensures
        distinct_keys(put(entries, key, value)),
{
    if exists|i: int| 0 <= i < entries.len() && entries[i].0 == key {
        let i = choose|i: int| 0 <= i < entries.len() && entries[i].0 == key;
        lemma_put_at(entries, key, value, i);
    } else {
        lemma_put_absent(entries, key, value);
    }
}

/// A new record is well formed, and every operation on the storage keeps a
/// record so.
pub proof fn lemma_well_formed_kept(
    account: AccountView,
    key: Seq<u8>,
    value: Seq<u8>,
    fetched: Fetched,
    root: Seq<u8>,
)
    requires
        account.well_formed(),
    ensures
        AccountView::fresh(account.balance, account.nonce, account.code_size).well_formed(),
        account.with_storage(key, value).well_formed(),
        account.after_cached_read(key).well_formed(),
        account.after_storage_read(key, fetched).well_formed(),
        account.after_commit(root).well_formed(),
        account.after_commit_code().well_formed(),
        account.with_address_hash(key).well_formed(),
{
    lemma_put_distinct(account.storage_changes, key, value);
}

/// After the staged writes were made, the trie holds for a staged key the
/// encoding of its value, or nothing where the value is zero bytes only.
pub proof fn lemma_trie_after_writes(
    trie: Map<Seq<u8>, Seq<u8>>,
    staged: Entries,
    key: Seq<u8>,
    value: Seq<u8>,
)
    requires
        lookup(staged, key) == Some(value),
    ensures
        all_zero(value) ==> !apply_writes(trie, writes_for(staged)).contains_key(key),
        !all_zero(value) ==> apply_writes(trie, writes_for(staged)).contains_key(key)
            && apply_writes(trie, writes_for(staged))[key] == rlp_bytes(value),
    decreases staged.len(),
{
    let writes = writes_for(staged);
    assert(writes.drop_last() == writes_for(staged.drop_last()));
    if staged.last().0 != key {
        lemma_trie_after_writes(trie, staged.drop_last(), key, value);
    }
}

/// The staged writes leave every key that is not staged as the trie held
/// it.
pub proof fn lemma_trie_keeps_unstaged(trie: Map<Seq<u8>, Seq<u8>>, staged: Entries, key: Seq<u8>)
    requires
        lookup(staged, key) is None,
    ensures
        apply_writes(trie, writes_for(staged)).contains_key(key) == trie.contains_key(key),
        trie.contains_key(key) ==> apply_writes(trie, writes_for(staged))[key] == trie[key],
    decreases staged.len(),
{
    if staged.len() > 0 {
        let writes = writes_for(staged);
        assert(writes.drop_last() == writes_for(staged.drop_last()));
        lemma_trie_keeps_unstaged(trie, staged.drop_last(), key);
    }
}

/// The order of the staged writes does not matter: two lists of staged
/// writes that hold the same value for every key leave the same trie
/// behind.
pub proof fn lemma_write_order_is_free(
    trie: Map<Seq<u8>, Seq<u8>>,
    first: Entries,
    second: Entries,
)
    requires
        forall|key: Seq<u8>| lookup(first, key) == lookup(second, key),
    ensures
        apply_writes(trie, writes_for(first)) == apply_writes(trie, writes_for(second)),
{
    let a = apply_writes(trie, writes_for(first));
    let b = apply_writes(trie, writes_for(second));
    assert forall|key: Seq<u8>|
        #![trigger a.dom().contains(key)]
        #![trigger b.dom().contains(key)]
        a.dom().contains(key) == b.dom().contains(key) && (a.dom().contains(key) ==> a[key]
            == b[key]) by {
        assert(lookup(first, key) == lookup(second, key));
        match lookup(first, key) {
            Some(value) => {
                lemma_trie_after_writes(trie, first, key, value);
                lemma_trie_after_writes(trie, second, key, value);
            },
            None => {
                lemma_trie_keeps_unstaged(trie, first, key);
                lemma_trie_keeps_unstaged(trie, second, key);
            },
        }
    }
    assert(a =~= b);
}

/// After the staged writes were committed, the record remembers for a
/// staged key the committed value, or nothing.
pub proof fn lemma_cache_after_commit(
    cache: Entries,
    limit: nat,
    staged: Entries,
    key: Seq<u8>,
    value: Seq<u8>,
)
    requires
        lookup(staged, key) == Some(value),
    ensures
        lookup(absorbed(cache, limit, staged), key) is None || lookup(
            absorbed(cache, limit, staged),
            key,
        ) == Some(committed_value(value)),
    decreases staged.len(),
{
    let before = absorbed(cache, limit, staged.drop_last());
    lemma_lookup_inserted(
        before,
        limit,
        staged.last().0,
        committed_value(staged.last().1),
        key,
    );
    if staged.last().0 != key {
        lemma_cache_after_commit(cache, limit, staged.drop_last(), key, value);
    }
}

/// Round trip and zero-as-delete: stage `value` under `key`, write the
/// staged writes to a trie, commit, and read `key` back from the record and
/// that trie. A value that is not zero bytes only comes back as it was
/// staged. One that is zero bytes only comes back as the empty value, and
/// the trie holds nothing for the key.
pub proof fn lemma_commit_then_read(
    account: AccountView,
    trie: Map<Seq<u8>, Seq<u8>>,
    key: Seq<u8>,
    value: Seq<u8>,
    root: Seq<u8>,
)
    requires
        value.len() <= u32::MAX,
    ensures
        ({
            let staged = account.with_storage(key, value);
            let written = apply_writes(trie, writes_for(staged.storage_changes));
            let committed = staged.after_commit(root);
            &&& committed.storage_value(key, trie_answer(written, key)) == Ok::<
                Seq<u8>,
                StorageError,
            >(committed_value(value))
            &&& all_zero(value) ==> !written.contains_key(key)
        }),
{
    let staged = account.with_storage(key, value);
    lemma_lookup_put(account.storage_changes, key, value, key);
    lemma_trie_after_writes(trie, staged.storage_changes, key, value);
    lemma_cache_after_commit(
        account.storage_cache,
        account.storage_cache_limit,
        staged.storage_changes,
        key,
        value,
    );
    if !all_zero(value) {
        lemma_decode_encode(value);
    }
}

/// A read changes no value: after the record was asked for one key, it
/// holds for every key what it held before.
pub proof fn lemma_read_keeps_values(account: AccountView, key: Seq<u8>, other: Seq<u8>)
    ensures
        account.after_cached_read(key).cached_value(other) == account.cached_value(other),
        account.after_cached_read(key).storage_changes == account.storage_changes,
{
    lemma_lookup_touched(account.storage_cache, key, other);
}

/// Shadowing: a staged value is what a read returns, whatever the record
/// remembers for the key and whatever the trie holds.
pub proof fn lemma_staged_shadows(
    account: AccountView,
    key: Seq<u8>,
    value: Seq<u8>,
    fetched: Fetched,
)
    requires
        lookup(account.storage_changes, key) == Some(value),
    ensures
        account.cached_value(key) == Some(value),
        account.storage_value(key, fetched) == Ok::<Seq<u8>, StorageError>(value),
{
}

} // verus!
