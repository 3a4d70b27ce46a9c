use account_overlay::account::{AVMAccount, InsufficientBalance};
use account_overlay::hash::{blake2b, blake2b_empty, blake2b_null_rlp, H256};
use account_overlay::model::{Filth, StorageError, StorageWrite, STORAGE_CACHE_ITEMS};
use account_overlay::uint::U256;
use std::collections::HashMap;
use std::sync::Arc;

/// Stands in for the storage trie: applies the writes and tells a root that
/// depends on what it holds.
fn apply(trie: &mut HashMap<Vec<u8>, Vec<u8>>, writes: &[StorageWrite]) -> H256 {
    for w in writes {
        match w {
            StorageWrite::Remove { key } => {
                trie.remove(key);
            }
            StorageWrite::Insert { key, value } => {
                trie.insert(key.clone(), value.clone());
            }
        }
    }
    if trie.is_empty() {
        return blake2b_null_rlp();
    }
    let mut pairs: Vec<(&Vec<u8>, &Vec<u8>)> = trie.iter().collect();
    pairs.sort();
    let mut all = Vec::new();
    for (k, v) in pairs {
        all.extend_from_slice(k);
        all.push(0xff);
        all.extend_from_slice(v);
    }
    blake2b(&all)
}

fn commit(account: &mut AVMAccount, trie: &mut HashMap<Vec<u8>, Vec<u8>>) {
    let writes = account.storage_writes().unwrap();
    let root = apply(trie, &writes);
    assert_eq!(account.commit_storage(Ok(root)), Ok(()));
}

fn read(account: &mut AVMAccount, trie: &HashMap<Vec<u8>, Vec<u8>>, key: &Vec<u8>) -> Vec<u8> {
    account.storage_at(key, Ok(trie.get(key).cloned())).unwrap()
}

#[test]
fn new_basic_has_no_code_and_no_storage() {
    let a = AVMAccount::new_basic(U256::from_u64(69), U256::from_u64(3));
    assert_eq!(*a.balance(), U256::from_u64(69));
    assert_eq!(*a.nonce(), U256::from_u64(3));
    assert_eq!(a.storage_root(), blake2b_null_rlp());
    assert_eq!(a.code_hash(), blake2b_empty());
    assert_eq!(a.code_size(), Some(0));
    assert_eq!(a.code(), None);
    assert!(a.is_cached());
    assert!(a.storage_is_clean());
    assert!(a.storage_changes().is_empty());
}

#[test]
fn new_contract_has_unknown_code_size() {
    let a = AVMAccount::new_contract(U256::from_u64(1), U256::zero());
    assert_eq!(a.code_size(), None);
    assert_eq!(a.code_hash(), blake2b_empty());
    assert_eq!(a.storage_root(), blake2b_null_rlp());
    assert_eq!(*a.balance(), U256::from_u64(1));
}

#[test]
fn balance_and_nonce_arithmetic() {
    let mut a = AVMAccount::new_basic(U256::from_u64(100), U256::zero());
    a.add_balance(&U256::from_u64(23));
    assert_eq!(*a.balance(), U256::from_u64(123));
    assert_eq!(a.sub_balance(&U256::from_u64(120)), Ok(()));
    assert_eq!(*a.balance(), U256::from_u64(3));
    a.inc_nonce();
    a.inc_nonce();
    assert_eq!(*a.nonce(), U256::from_u64(2));
    assert_eq!(*a.balance(), U256::from_u64(3));
}

#[test]
fn sub_balance_guards_against_underflow() {
    let mut a = AVMAccount::new_basic(U256::from_u64(5), U256::zero());
    assert_eq!(a.sub_balance(&U256::from_u64(10)), Err(InsufficientBalance));
    assert_eq!(*a.balance(), U256::from_u64(5));
    assert_eq!(a.sub_balance(&U256::from_u64(5)), Ok(()));
    assert_eq!(*a.balance(), U256::zero());
    assert_eq!(a.sub_balance(&U256::from_u64(1)), Err(InsufficientBalance));
    assert_eq!(*a.balance(), U256::zero());
}

#[test]
fn emptiness() {
    let a = AVMAccount::new_basic(U256::zero(), U256::zero());
    assert!(a.is_null());
    assert!(a.is_empty());

    let b = AVMAccount::new_basic(U256::from_u64(1), U256::zero());
    assert!(!b.is_null());
    assert!(!b.is_empty());

    let c = AVMAccount::new_basic(U256::zero(), U256::from_u64(1));
    assert!(!c.is_null());
    assert!(!c.is_empty());

    let mut d = AVMAccount::new_contract(U256::zero(), U256::zero());
    d.init_code(vec![1, 2, 3]);
    assert!(!d.is_null());
    assert!(!d.is_empty());
}

#[test]
fn emptiness_needs_an_empty_storage() {
    let mut trie = HashMap::new();
    let mut a = AVMAccount::new_basic(U256::zero(), U256::zero());
    a.set_storage(vec![1], vec![42]);
    assert!(!a.storage_is_clean());
    commit(&mut a, &mut trie);
    assert!(a.storage_is_clean());
    assert!(a.is_null());
    assert!(!a.is_empty());
}

#[test]
fn storage_round_trip() {
    let mut trie = HashMap::new();
    let mut a = AVMAccount::new_basic(U256::zero(), U256::zero());
    a.set_storage(vec![7, 7], vec![0, 9, 0]);
    commit(&mut a, &mut trie);
    assert_eq!(read(&mut a, &trie, &vec![7, 7]), vec![0, 9, 0]);
    assert_eq!(trie.get(&vec![7, 7]), Some(&vec![0x83, 0, 9, 0]));

    // the same through the trie alone, with nothing remembered
    let mut b = a.clone_basic();
    assert_eq!(b.cached_storage_at(&vec![7, 7]), None);
    assert_eq!(read(&mut b, &trie, &vec![7, 7]), vec![0, 9, 0]);
    // and it is remembered afterwards
    assert_eq!(b.cached_storage_at(&vec![7, 7]), Some(vec![0, 9, 0]));
}

#[test]
fn zero_value_deletes_the_key() {
    let mut trie = HashMap::new();
    let mut a = AVMAccount::new_basic(U256::zero(), U256::zero());
    a.set_storage(vec![5], vec![1]);
    commit(&mut a, &mut trie);
    assert!(trie.contains_key(&vec![5]));
    assert_ne!(a.storage_root(), blake2b_null_rlp());

    a.set_storage(vec![5], vec![0, 0, 0]);
    assert_eq!(
        a.storage_writes(),
        Ok(vec![StorageWrite::Remove { key: vec![5] }])
    );
    commit(&mut a, &mut trie);
    assert_eq!(read(&mut a, &trie, &vec![5]), Vec::<u8>::new());
    assert!(!trie.contains_key(&vec![5]));
    assert_eq!(a.storage_root(), blake2b_null_rlp());
}

#[test]
fn empty_value_deletes_the_key_too() {
    let mut a = AVMAccount::new_basic(U256::zero(), U256::zero());
    a.set_storage(vec![5], vec![]);
    assert_eq!(
        a.storage_writes(),
        Ok(vec![StorageWrite::Remove { key: vec![5] }])
    );
}

#[test]
fn staged_value_shadows_the_remembered_one() {
    let mut trie = HashMap::new();
    let mut a = AVMAccount::new_basic(U256::zero(), U256::zero());
    a.set_storage(vec![1], vec![10]);
    commit(&mut a, &mut trie);
    assert_eq!(a.cached_storage_at(&vec![1]), Some(vec![10]));
    a.set_storage(vec![1], vec![20]);
    assert_eq!(a.cached_storage_at(&vec![1]), Some(vec![20]));
    assert_eq!(read(&mut a, &trie, &vec![1]), vec![20]);
    // whatever the trie would answer
    assert_eq!(
        a.storage_at(&vec![1], Err(StorageError::IncompleteDatabase(H256::zero()))),
        Ok(vec![20])
    );
    a.discard_storage_changes();
    assert_eq!(a.cached_storage_at(&vec![1]), Some(vec![10]));
}

#[test]
fn scenario_commit_changes_the_root() {
    let mut trie = HashMap::new();
    let mut a = AVMAccount::new_basic(U256::from_u64(100), U256::zero());
    assert_eq!(a.storage_root(), blake2b_null_rlp());
    a.set_storage(vec![1], vec![42]);
    commit(&mut a, &mut trie);
    assert_ne!(a.storage_root(), blake2b_null_rlp());
    assert_eq!(read(&mut a, &trie, &vec![1]), vec![42]);
    assert_eq!(*a.balance(), U256::from_u64(100));
}

#[test]
fn set_storage_overwrites_in_place() {
    let mut a = AVMAccount::new_basic(U256::zero(), U256::zero());
    a.set_storage(vec![1], vec![10]);
    a.set_storage(vec![2], vec![20]);
    a.set_storage(vec![1], vec![11]);
    assert_eq!(
        a.storage_changes(),
        &vec![(vec![1], vec![11]), (vec![2], vec![20])]
    );
    assert_eq!(
        a.storage_writes(),
        Ok(vec![
            StorageWrite::Insert { key: vec![1], value: vec![11] },
            StorageWrite::Insert { key: vec![2], value: vec![20] },
        ])
    );
    a.set_storage(vec![3], vec![0x80]);
    assert_eq!(
        a.storage_writes().unwrap()[2],
        StorageWrite::Insert { key: vec![3], value: vec![0x81, 0x80] }
    );
}

#[test]
fn storage_at_of_an_unknown_key_is_empty_and_remembered() {
    let mut a = AVMAccount::new_basic(U256::zero(), U256::zero());
    assert_eq!(a.cached_storage_at(&vec![9]), None);
    assert_eq!(a.storage_at(&vec![9], Ok(None)), Ok(vec![]));
    assert_eq!(a.cached_storage_at(&vec![9]), Some(vec![]));
    // the remembered value answers, whatever the trie says now
    assert_eq!(a.storage_at(&vec![9], Ok(Some(vec![0x05]))), Ok(vec![]));
}

#[test]
fn storage_at_decodes_what_the_trie_holds() {
    let mut a = AVMAccount::new_basic(U256::zero(), U256::zero());
    assert_eq!(
        a.storage_at(&vec![1], Ok(Some(vec![0x82, 4, 5]))),
        Ok(vec![4, 5])
    );
    assert_eq!(a.cached_storage_at(&vec![1]), Some(vec![4, 5]));
}

#[test]
fn storage_at_hands_failures_on() {
    let mut a = AVMAccount::new_basic(U256::zero(), U256::zero());
    let root = blake2b(&[1]);
    assert_eq!(
        a.storage_at(&vec![1], Err(StorageError::InvalidStateRoot(root))),
        Err(StorageError::InvalidStateRoot(root))
    );
    assert_eq!(
        a.storage_at(&vec![1], Err(StorageError::IncompleteDatabase(root))),
        Err(StorageError::IncompleteDatabase(root))
    );
    // bytes that are no encoding
    assert_eq!(
        a.storage_at(&vec![1], Ok(Some(vec![0x83, 1]))),
        Err(StorageError::Encoding)
    );
    // nothing was remembered
    assert_eq!(a.cached_storage_at(&vec![1]), None);
}

#[test]
fn commit_storage_failure_changes_nothing() {
    let mut a = AVMAccount::new_basic(U256::zero(), U256::zero());
    a.set_storage(vec![1], vec![10]);
    let root = blake2b(&[1]);
    assert_eq!(
        a.commit_storage(Err(StorageError::InvalidStateRoot(root))),
        Err(StorageError::InvalidStateRoot(root))
    );
    assert_eq!(a.storage_changes(), &vec![(vec![1], vec![10])]);
    assert_eq!(a.storage_root(), blake2b_null_rlp());
}

#[test]
fn the_memo_forgets_the_least_recently_used_key() {
    let mut trie = HashMap::new();
    let mut a = AVMAccount::new_basic(U256::zero(), U256::zero());
    let key = |i: usize| vec![(i >> 8) as u8, (i & 0xff) as u8, 1];
    for i in 0..=STORAGE_CACHE_ITEMS {
        a.set_storage(key(i), vec![1, (i % 200) as u8]);
    }
    commit(&mut a, &mut trie);
    // the first key was pushed out by the last
    assert_eq!(a.cached_storage_at(&key(0)), None);
    assert_eq!(a.cached_storage_at(&key(1)), Some(vec![1, 1]));
    assert_eq!(
        a.cached_storage_at(&key(STORAGE_CACHE_ITEMS)),
        Some(vec![1, (STORAGE_CACHE_ITEMS % 200) as u8])
    );
    // and is read back from the trie
    assert_eq!(read(&mut a, &trie, &key(0)), vec![1, 0]);
    // which pushed out the least recently used one: key 2, as key 1 was just read
    assert_eq!(a.cached_storage_at(&key(2)), None);
    assert_eq!(a.cached_storage_at(&key(1)), Some(vec![1, 1]));
}

#[test]
fn clone_keeps_everything_and_clone_basic_drops_the_storage_caches() {
    let mut trie = HashMap::new();
    let mut a = AVMAccount::new_contract(U256::from_u64(8), U256::from_u64(2));
    a.init_code(vec![1, 2, 3]);
    a.set_storage(vec![1], vec![10]);
    commit(&mut a, &mut trie);
    a.set_storage(vec![2], vec![20]);

    let mut c = a.clone();
    assert_eq!(c.cached_storage_at(&vec![1]), Some(vec![10]));
    assert_eq!(c.cached_storage_at(&vec![2]), Some(vec![20]));
    assert_eq!(c.storage_changes(), a.storage_changes());
    assert_eq!(c.code(), Some(Arc::new(vec![1, 2, 3])));
    assert_eq!(c.storage_root(), a.storage_root());

    let mut b = a.clone_basic();
    assert_eq!(b.cached_storage_at(&vec![1]), None);
    assert_eq!(b.cached_storage_at(&vec![2]), None);
    assert!(b.storage_is_clean());
    assert_eq!(*b.balance(), U256::from_u64(8));
    assert_eq!(*b.nonce(), U256::from_u64(2));
    assert_eq!(b.code_hash(), a.code_hash());
    assert_eq!(b.code(), Some(Arc::new(vec![1, 2, 3])));
    assert_eq!(b.storage_root(), a.storage_root());
    assert_eq!(b.code_size(), Some(3));
}

#[test]
fn init_code_sets_hash_size_and_dirt() {
    let mut a = AVMAccount::new_contract(U256::zero(), U256::zero());
    a.init_code(vec![0x55, 0x44, 0xff]);
    assert_eq!(a.code_hash(), blake2b(&[0x55, 0x44, 0xff]));
    assert_eq!(a.code_size(), Some(3));
    assert_eq!(a.code(), Some(Arc::new(vec![0x55, 0x44, 0xff])));
    assert!(a.is_cached());
}

#[test]
fn commit_code_writes_dirty_code_once() {
    let mut a = AVMAccount::new_contract(U256::zero(), U256::zero());
    a.init_code(vec![0x55, 0x44, 0xff]);
    let hash = blake2b(&[0x55, 0x44, 0xff]);
    assert_eq!(
        a.commit_code(),
        Some((hash, Arc::new(vec![0x55, 0x44, 0xff])))
    );
    assert_eq!(a.code_size(), Some(3));
    assert_eq!(a.code_hash(), hash);
    // clean now: nothing more to write
    assert_eq!(a.commit_code(), None);
    assert_eq!(a.commit_code(), None);
}

#[test]
fn commit_code_of_empty_code_writes_nothing() {
    let mut a = AVMAccount::new_contract(U256::zero(), U256::zero());
    a.init_code(vec![]);
    assert_eq!(a.code_hash(), blake2b_empty());
    assert_eq!(a.commit_code(), None);
    assert_eq!(a.code_size(), Some(0));
    // an account that was never dirty
    let mut b = AVMAccount::new_contract(U256::zero(), U256::zero());
    assert_eq!(b.commit_code(), None);
    assert_eq!(b.code_size(), None);
}

#[test]
fn cache_code_brings_code_from_the_store() {
    let mut a = AVMAccount::new_contract(U256::zero(), U256::zero());
    a.init_code(vec![9, 8, 7]);
    let _ = a.commit_code();
    // a copy that has lost the code but knows its hash
    let mut b = a.clone_basic();
    b.cache_given_code(Arc::new(vec![]));
    assert_eq!(b.code(), None);
    assert!(!b.is_cached());
    // the store has nothing: unavailable
    assert_eq!(b.cache_code(None), None);
    assert!(!b.is_cached());
    // the store has it
    assert_eq!(b.cache_code(Some(vec![9, 8, 7])), Some(Arc::new(vec![9, 8, 7])));
    assert!(b.is_cached());
    assert_eq!(b.code_size(), Some(3));
    // at hand already: the store's answer is not looked at
    assert_eq!(b.cache_code(Some(vec![1])), Some(Arc::new(vec![9, 8, 7])));
    assert_eq!(b.cache_code(None), Some(Arc::new(vec![9, 8, 7])));
}

#[test]
fn cache_code_of_an_account_without_code() {
    let mut a = AVMAccount::new_basic(U256::zero(), U256::zero());
    assert_eq!(a.cache_code(None), Some(Arc::new(vec![])));
    assert_eq!(a.cache_code(Some(vec![1, 2])), Some(Arc::new(vec![])));
    assert_eq!(a.code(), None);
}

#[test]
fn cache_code_size_cases() {
    // known already
    let mut a = AVMAccount::new_basic(U256::zero(), U256::zero());
    assert!(a.cache_code_size(None));
    assert!(a.cache_code_size(Some(7)));
    assert_eq!(a.code_size(), Some(0));
    // unknown and no code
    let mut b = AVMAccount::new_contract(U256::zero(), U256::zero());
    assert!(!b.cache_code_size(Some(5)));
    assert_eq!(b.code_size(), None);
    // unknown, with code: the store decides
    let mut c = AVMAccount::new_contract(U256::zero(), U256::zero());
    c.init_code(vec![1, 2, 3, 4]);
    let mut d = c.clone_basic();
    d.cache_given_code(Arc::new(vec![]));
    // cache_given_code made the size known
    assert_eq!(d.code_size(), Some(0));
    assert!(d.cache_code_size(None));
}

#[test]
fn cache_given_code_replaces_code_and_size() {
    let mut a = AVMAccount::new_contract(U256::zero(), U256::zero());
    a.cache_given_code(Arc::new(vec![1, 2, 3, 4, 5]));
    assert_eq!(a.code_size(), Some(5));
    assert_eq!(a.code(), Some(Arc::new(vec![1, 2, 3, 4, 5])));
    // the hash is not touched
    assert_eq!(a.code_hash(), blake2b_empty());
}

#[test]
fn address_hash_is_computed_once() {
    let mut a = AVMAccount::new_basic(U256::zero(), U256::zero());
    let first = blake2b(&[1]);
    let second = blake2b(&[2]);
    let h = a.address_hash(&first);
    assert_eq!(h, blake2b(first.as_bytes()));
    // remembered: another address does not change it
    assert_eq!(a.address_hash(&second), h);
    assert_ne!(blake2b(second.as_bytes()), h);
}

#[test]
fn filth_values() {
    assert_ne!(Filth::Clean, Filth::Dirty);
    assert_eq!(Filth::Dirty, Filth::Dirty);
}
