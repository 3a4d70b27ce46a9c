use account_overlay::account::AVMAccount;
use account_overlay::basic_account::BasicAccount;
use account_overlay::address_map::AddressMap;
use account_overlay::entry::{AVMAccountEntry, AccountState, PriorEntry};
use account_overlay::hash::{blake2b, blake2b_null_rlp, Address};
use account_overlay::model::{StorageError, StorageWrite};
use account_overlay::overlay::{AVMAccMgr, CommitRequest};
use std::sync::Arc;
use account_overlay::uint::U256;

fn addr(n: u8) -> Address {
    blake2b(&[n])
}

fn entry(balance: u64) -> AVMAccountEntry {
    AVMAccountEntry::new_dirty(Some(AVMAccount::new_basic(
        U256::from_u64(balance),
        U256::zero(),
    )))
}

/// What the overlay shows for an address: no slot, a tombstone, or the
/// balance and state of the account.
#[derive(Debug, PartialEq)]
enum Seen {
    Absent,
    Tombstone(AccountState),
    Present(U256, AccountState),
}

fn seen(overlay: &AVMAccMgr, a: &Address) -> Seen {
    match overlay.get(a) {
        None => Seen::Absent,
        Some(e) => match &e.account {
            None => Seen::Tombstone(e.get_state()),
            Some(acc) => Seen::Present(*acc.balance(), e.get_state()),
        },
    }
}

#[test]
fn entry_constructors_fix_the_state() {
    let a = AVMAccountEntry::new_clean(Some(AVMAccount::new_basic(
        U256::from_u64(5),
        U256::zero(),
    )));
    assert_eq!(a.get_state(), AccountState::CleanFresh);
    assert_eq!(a.old_balance, Some(U256::from_u64(5)));
    assert!(!a.is_dirty());

    let b = AVMAccountEntry::new_dirty(None);
    assert_eq!(b.get_state(), AccountState::Dirty);
    assert_eq!(b.old_balance, None);
    assert!(b.account.is_none());
    assert!(b.is_dirty());

    let c = AVMAccountEntry::new_clean_cached(Some(AVMAccount::new_basic(
        U256::from_u64(9),
        U256::zero(),
    )));
    assert_eq!(c.get_state(), AccountState::CleanCached);
    assert_eq!(c.old_balance, Some(U256::from_u64(9)));
    assert!(!c.is_dirty());
}

#[test]
fn change_state_keeps_the_account() {
    let mut a = entry(5);
    a.change_state(AccountState::CleanCached);
    assert_eq!(a.get_state(), AccountState::CleanCached);
    assert!(!a.is_dirty());
    assert_eq!(*a.account.as_ref().unwrap().balance(), U256::from_u64(5));
    assert_eq!(a.old_balance, Some(U256::from_u64(5)));
    a.change_state(AccountState::Dirty);
    assert!(a.is_dirty());
}

#[test]
fn prior_entry_tells_three_cases_apart() {
    assert!(matches!(PriorEntry::capture(None), PriorEntry::AddressAbsent));
    assert!(matches!(
        PriorEntry::capture(Some(AVMAccountEntry::new_dirty(None))),
        PriorEntry::Tombstone { old_balance: None, state: AccountState::Dirty }
    ));
    assert!(matches!(
        PriorEntry::capture(Some(entry(3))),
        PriorEntry::PresentEntry { .. }
    ));
    assert!(PriorEntry::capture(None).restore().is_none());
    let t = PriorEntry::capture(Some(AVMAccountEntry::new_clean(None)))
        .restore()
        .unwrap();
    assert!(t.account.is_none());
    assert_eq!(t.state, AccountState::CleanFresh);
    let p = PriorEntry::capture(Some(entry(3))).restore().unwrap();
    assert_eq!(*p.account.unwrap().balance(), U256::from_u64(3));
    assert_eq!(p.old_balance, Some(U256::from_u64(3)));
    assert_eq!(p.state, AccountState::Dirty);
}

#[test]
fn address_map_basics() {
    let mut m: AddressMap<u32> = AddressMap::new();
    assert_eq!(m.len(), 0);
    assert_eq!(m.insert(addr(1), 10), None);
    assert_eq!(m.insert(addr(2), 20), None);
    assert_eq!(m.insert(addr(1), 11), Some(10));
    assert_eq!(m.len(), 2);
    assert_eq!(m.get(&addr(1)), Some(&11));
    assert_eq!(m.get(&addr(2)), Some(&20));
    assert_eq!(m.get(&addr(3)), None);
    assert!(m.contains_key(&addr(2)));
    assert!(!m.contains_key(&addr(3)));
    let mut keys = m.keys();
    keys.sort_by_key(|k| k.to_vec());
    let mut expected = vec![addr(1), addr(2)];
    expected.sort_by_key(|k| k.to_vec());
    assert_eq!(keys, expected);
    assert_eq!(m.remove(&addr(3)), None);
    assert_eq!(m.remove(&addr(1)), Some(11));
    assert_eq!(m.len(), 1);
    assert_eq!(m.get(&addr(1)), None);
    assert_eq!(m.pop(), Some((addr(2), 20)));
    assert_eq!(m.pop(), None);
}

#[test]
fn new_overlay_is_empty() {
    let o = AVMAccMgr::new();
    assert_eq!(o.depth(), 0);
    assert_eq!(seen(&o, &addr(1)), Seen::Absent);
    assert!(o.account(&addr(1)).is_none());
}

#[test]
fn new_account_installs_a_dirty_zero_account() {
    let mut o = AVMAccMgr::new();
    o.new_account(&addr(1));
    assert_eq!(
        seen(&o, &addr(1)),
        Seen::Present(U256::zero(), AccountState::Dirty)
    );
    let acc = o.account(&addr(1)).unwrap();
    assert_eq!(*acc.nonce(), U256::zero());
    assert_eq!(acc.storage_root(), blake2b_null_rlp());
    assert_eq!(acc.code_size(), Some(0));
    assert_eq!(o.get(&addr(1)).unwrap().old_balance, Some(U256::zero()));
    assert_eq!(seen(&o, &addr(2)), Seen::Absent);
}

#[test]
fn insert_cache_overwrites() {
    let mut o = AVMAccMgr::new();
    o.insert_cache(&addr(1), entry(5));
    o.insert_cache(&addr(1), entry(6));
    assert_eq!(
        seen(&o, &addr(1)),
        Seen::Present(U256::from_u64(6), AccountState::Dirty)
    );
    o.note_cache(&addr(1));
    assert_eq!(
        seen(&o, &addr(1)),
        Seen::Present(U256::from_u64(6), AccountState::Dirty)
    );
}

#[test]
fn kill_account_installs_a_tombstone() {
    let mut o = AVMAccMgr::new();
    o.insert_cache(&addr(1), entry(5));
    o.kill_account(&addr(1));
    assert_eq!(seen(&o, &addr(1)), Seen::Tombstone(AccountState::Dirty));
    assert!(o.account(&addr(1)).is_none());
    assert!(o.get(&addr(1)).is_some());
}

#[test]
fn scenario_revert_brings_a_killed_account_back() {
    let mut o = AVMAccMgr::new();
    o.insert_cache(&addr(1), entry(77));
    o.checkpoint();
    o.kill_account(&addr(1));
    assert!(o.account(&addr(1)).is_none());
    o.revert_to_checkpoint();
    assert_eq!(
        seen(&o, &addr(1)),
        Seen::Present(U256::from_u64(77), AccountState::Dirty)
    );
    assert_eq!(
        *o.account(&addr(1)).unwrap().balance(),
        U256::from_u64(77)
    );
    assert_eq!(o.depth(), 0);
}

#[test]
fn revert_restores_absent_tombstone_and_present() {
    let mut o = AVMAccMgr::new();
    // 1 is absent, 2 is a tombstone, 3 is present
    o.insert_cache(&addr(2), AVMAccountEntry::new_clean_cached(None));
    o.insert_cache(&addr(3), AVMAccountEntry::new_clean(Some(AVMAccount::new_basic(
        U256::from_u64(30),
        U256::zero(),
    ))));
    o.checkpoint();
    o.new_account(&addr(1));
    o.insert_cache(&addr(2), entry(20));
    o.kill_account(&addr(3));
    // a second change to each: the first record stands
    o.kill_account(&addr(1));
    o.kill_account(&addr(2));
    o.insert_cache(&addr(3), entry(31));
    o.revert_to_checkpoint();
    assert_eq!(seen(&o, &addr(1)), Seen::Absent);
    assert_eq!(seen(&o, &addr(2)), Seen::Tombstone(AccountState::CleanCached));
    assert_eq!(
        seen(&o, &addr(3)),
        Seen::Present(U256::from_u64(30), AccountState::CleanFresh)
    );
}

#[test]
fn discard_keeps_the_changes() {
    let mut o = AVMAccMgr::new();
    o.insert_cache(&addr(1), entry(1));
    o.checkpoint();
    o.insert_cache(&addr(1), entry(2));
    o.new_account(&addr(2));
    o.discard_checkpoint();
    assert_eq!(o.depth(), 0);
    assert_eq!(
        seen(&o, &addr(1)),
        Seen::Present(U256::from_u64(2), AccountState::Dirty)
    );
    assert_eq!(
        seen(&o, &addr(2)),
        Seen::Present(U256::zero(), AccountState::Dirty)
    );
    // nothing left to revert to
    o.revert_to_checkpoint();
    assert_eq!(
        seen(&o, &addr(1)),
        Seen::Present(U256::from_u64(2), AccountState::Dirty)
    );
}

#[test]
fn nested_checkpoints_discard_then_revert() {
    let mut o = AVMAccMgr::new();
    o.insert_cache(&addr(1), entry(10));
    o.checkpoint(); // A
    o.checkpoint(); // B
    assert_eq!(o.depth(), 2);
    o.insert_cache(&addr(1), entry(11));
    o.discard_checkpoint(); // B
    assert_eq!(o.depth(), 1);
    assert_eq!(
        seen(&o, &addr(1)),
        Seen::Present(U256::from_u64(11), AccountState::Dirty)
    );
    o.new_account(&addr(2));
    o.revert_to_checkpoint(); // A
    assert_eq!(o.depth(), 0);
    assert_eq!(
        seen(&o, &addr(1)),
        Seen::Present(U256::from_u64(10), AccountState::Dirty)
    );
    assert_eq!(seen(&o, &addr(2)), Seen::Absent);
}

#[test]
fn nested_checkpoints_outer_record_wins() {
    let mut o = AVMAccMgr::new();
    o.checkpoint(); // A
    o.insert_cache(&addr(1), entry(1)); // A records: absent
    o.checkpoint(); // B
    o.insert_cache(&addr(1), entry(2)); // B records: balance 1
    o.discard_checkpoint(); // B
    o.revert_to_checkpoint(); // A
    assert_eq!(seen(&o, &addr(1)), Seen::Absent);
}

#[test]
fn inner_revert_undoes_only_the_inner_changes() {
    let mut o = AVMAccMgr::new();
    o.checkpoint(); // A
    o.insert_cache(&addr(1), entry(1));
    o.checkpoint(); // B
    o.insert_cache(&addr(1), entry(2));
    o.insert_cache(&addr(2), entry(3));
    o.revert_to_checkpoint(); // B
    assert_eq!(
        seen(&o, &addr(1)),
        Seen::Present(U256::from_u64(1), AccountState::Dirty)
    );
    assert_eq!(seen(&o, &addr(2)), Seen::Absent);
    assert_eq!(o.depth(), 1);
    o.discard_checkpoint(); // A
    assert_eq!(
        seen(&o, &addr(1)),
        Seen::Present(U256::from_u64(1), AccountState::Dirty)
    );
}

#[test]
fn revert_and_discard_without_checkpoint_do_nothing() {
    let mut o = AVMAccMgr::new();
    o.insert_cache(&addr(1), entry(1));
    o.revert_to_checkpoint();
    o.discard_checkpoint();
    assert_eq!(o.depth(), 0);
    assert_eq!(
        seen(&o, &addr(1)),
        Seen::Present(U256::from_u64(1), AccountState::Dirty)
    );
}

#[test]
fn revert_keeps_the_storage_of_the_restored_account() {
    let mut o = AVMAccMgr::new();
    let mut acc = AVMAccount::new_basic(U256::from_u64(4), U256::zero());
    acc.set_storage(vec![1], vec![42]);
    o.insert_cache(&addr(1), AVMAccountEntry::new_dirty(Some(acc)));
    o.checkpoint();
    let mut changed = o.account(&addr(1)).unwrap().clone();
    changed.set_storage(vec![1], vec![43]);
    changed.add_balance(&U256::from_u64(1));
    o.insert_cache(&addr(1), AVMAccountEntry::new_dirty(Some(changed)));
    assert_eq!(
        o.account(&addr(1)).unwrap().storage_changes(),
        &vec![(vec![1], vec![43])]
    );
    o.revert_to_checkpoint();
    let back = o.account(&addr(1)).unwrap();
    assert_eq!(back.storage_changes(), &vec![(vec![1], vec![42])]);
    assert_eq!(*back.balance(), U256::from_u64(4));
}

#[test]
fn dirty_addresses_lists_each_dirty_slot_once() {
    let mut o = AVMAccMgr::new();
    assert!(o.dirty_addresses().is_empty());
    o.insert_cache(&addr(1), entry(1));
    o.insert_cache(&addr(2), AVMAccountEntry::new_clean(Some(AVMAccount::new_basic(
        U256::from_u64(2),
        U256::zero(),
    ))));
    o.kill_account(&addr(3));
    o.insert_cache(&addr(4), AVMAccountEntry::new_clean_cached(None));
    o.insert_cache(&addr(1), entry(5));
    let mut dirty = o.dirty_addresses();
    dirty.sort_by_key(|k| k.to_vec());
    let mut expected = vec![addr(1), addr(3)];
    expected.sort_by_key(|k| k.to_vec());
    assert_eq!(dirty, expected);
}

#[test]
fn commit_of_a_tombstone_removes_the_address() {
    let mut o = AVMAccMgr::new();
    o.kill_account(&addr(1));
    match o.begin_commit(&addr(1)) {
        Ok(CommitRequest::Remove { address_hash }) => {
            assert_eq!(address_hash, blake2b(addr(1).as_bytes()));
        }
        other => panic!("unexpected request: {:?}", other),
    }
    // nothing to write to the account trie, and the slot stays dirty until marked
    assert_eq!(o.finish_commit(&addr(1), Ok(blake2b_null_rlp())), Ok(None));
    assert_eq!(seen(&o, &addr(1)), Seen::Tombstone(AccountState::Dirty));
    o.mark_committed(&addr(1));
    assert_eq!(seen(&o, &addr(1)), Seen::Tombstone(AccountState::CleanCached));
    assert!(o.dirty_addresses().is_empty());
}

#[test]
fn commit_of_clean_and_missing_slots_asks_nothing() {
    let mut o = AVMAccMgr::new();
    o.insert_cache(&addr(2), AVMAccountEntry::new_clean(Some(AVMAccount::new_basic(
        U256::from_u64(2),
        U256::zero(),
    ))));
    assert!(matches!(o.begin_commit(&addr(1)), Ok(CommitRequest::Nothing)));
    assert!(matches!(o.begin_commit(&addr(2)), Ok(CommitRequest::Nothing)));
    assert_eq!(o.finish_commit(&addr(1), Ok(blake2b(&[9]))), Ok(None));
    assert_eq!(o.finish_commit(&addr(2), Ok(blake2b(&[9]))), Ok(None));
    o.mark_committed(&addr(1));
    o.mark_committed(&addr(2));
    assert_eq!(seen(&o, &addr(1)), Seen::Absent);
    assert_eq!(
        seen(&o, &addr(2)),
        Seen::Present(U256::from_u64(2), AccountState::CleanFresh)
    );
    assert_eq!(
        o.account(&addr(2)).unwrap().storage_root(),
        blake2b_null_rlp()
    );
}

#[test]
fn commit_of_an_account_runs_code_then_storage() {
    let mut o = AVMAccMgr::new();
    let mut acc = AVMAccount::new_contract(U256::from_u64(100), U256::from_u64(7));
    acc.init_code(vec![1, 2, 3]);
    acc.set_storage(vec![1], vec![42]);
    acc.set_storage(vec![2], vec![0, 0]);
    let code_hash = acc.code_hash();
    o.insert_cache(&addr(1), AVMAccountEntry::new_dirty(Some(acc)));
    assert_eq!(o.dirty_addresses(), vec![addr(1)]);

    match o.begin_commit(&addr(1)) {
        Ok(CommitRequest::Store { address_hash, code, storage_root, writes }) => {
            assert_eq!(address_hash, blake2b(addr(1).as_bytes()));
            assert_eq!(code, Some((code_hash, Arc::new(vec![1, 2, 3]))));
            assert_eq!(storage_root, blake2b_null_rlp());
            assert_eq!(
                writes,
                vec![
                    StorageWrite::Insert { key: vec![1], value: vec![42] },
                    StorageWrite::Remove { key: vec![2] },
                ]
            );
        }
        other => panic!("unexpected request: {:?}", other),
    }
    // the code is clean now, the writes are still staged
    assert!(!o.account(&addr(1)).unwrap().storage_is_clean());
    match o.begin_commit(&addr(1)) {
        Ok(CommitRequest::Store { code, .. }) => assert_eq!(code, None),
        other => panic!("unexpected request: {:?}", other),
    }

    // the trie fails: nothing changes
    let bad = blake2b(&[0xbd]);
    assert_eq!(
        o.finish_commit(&addr(1), Err(StorageError::IncompleteDatabase(bad))),
        Err(StorageError::IncompleteDatabase(bad))
    );
    assert!(!o.account(&addr(1)).unwrap().storage_is_clean());

    // the trie has a new root
    let root = blake2b(&[0x77]);
    let written = o.finish_commit(&addr(1), Ok(root)).unwrap().unwrap();
    assert_eq!(written.0, blake2b(addr(1).as_bytes()));
    assert_eq!(
        written.1,
        BasicAccount {
            nonce: U256::from_u64(7),
            balance: U256::from_u64(100),
            storage_root: root,
            code_hash,
        }
    );
    let acc = o.account(&addr(1)).unwrap();
    assert!(acc.storage_is_clean());
    assert_eq!(acc.storage_root(), root);
    assert_eq!(acc.code_size(), Some(3));
    assert_eq!(seen(&o, &addr(1)), Seen::Present(U256::from_u64(100), AccountState::Dirty));
    o.mark_committed(&addr(1));
    assert_eq!(
        seen(&o, &addr(1)),
        Seen::Present(U256::from_u64(100), AccountState::CleanCached)
    );
    assert!(o.dirty_addresses().is_empty());
    let mut acc = o.account(&addr(1)).unwrap().clone();
    assert_eq!(acc.cached_storage_at(&vec![1]), Some(vec![42]));
    assert_eq!(acc.cached_storage_at(&vec![2]), Some(vec![]));
}

#[test]
fn commit_is_not_undone_by_a_revert_of_an_untouched_address() {
    let mut o = AVMAccMgr::new();
    let mut acc = AVMAccount::new_basic(U256::from_u64(1), U256::zero());
    acc.set_storage(vec![1], vec![1]);
    o.insert_cache(&addr(1), AVMAccountEntry::new_dirty(Some(acc)));
    o.checkpoint();
    let _ = o.begin_commit(&addr(1)).unwrap();
    let root = blake2b(&[0x55]);
    let _ = o.finish_commit(&addr(1), Ok(root)).unwrap();
    o.mark_committed(&addr(1));
    o.revert_to_checkpoint();
    assert_eq!(
        seen(&o, &addr(1)),
        Seen::Present(U256::from_u64(1), AccountState::CleanCached)
    );
    assert_eq!(o.account(&addr(1)).unwrap().storage_root(), root);
}

#[test]
fn from_basic_and_back() {
    let basic = BasicAccount {
        nonce: U256::from_u64(3),
        balance: U256::from_u64(9),
        storage_root: blake2b(&[1]),
        code_hash: blake2b(&[2]),
    };
    let mut acc = AVMAccount::from_basic(basic);
    assert_eq!(acc.basic(), basic);
    assert_eq!(acc.code_size(), None);
    assert_eq!(acc.code(), None);
    assert!(!acc.is_cached());
    assert!(acc.storage_is_clean());
    assert_eq!(acc.cached_storage_at(&vec![1]), None);
    assert!(!acc.cache_code_size(None));
    assert!(acc.cache_code_size(Some(12)));
    assert_eq!(acc.code_size(), Some(12));
}

#[test]
fn load_installs_what_the_account_trie_holds() {
    let mut o = AVMAccMgr::new();
    assert_eq!(o.load_key(&addr(1)), Some(blake2b(addr(1).as_bytes())));
    let stored = BasicAccount {
        nonce: U256::from_u64(2),
        balance: U256::from_u64(50),
        storage_root: blake2b(&[7]),
        code_hash: blake2b(&[8]),
    };
    assert_eq!(o.load(&addr(1), Ok(Some(stored.rlp()))), Ok(()));
    assert_eq!(
        seen(&o, &addr(1)),
        Seen::Present(U256::from_u64(50), AccountState::CleanFresh)
    );
    assert_eq!(o.account(&addr(1)).unwrap().basic(), stored);
    assert_eq!(o.get(&addr(1)).unwrap().old_balance, Some(U256::from_u64(50)));
    assert_eq!(o.load_key(&addr(1)), None);
    // a slot that is there is not loaded again
    assert_eq!(o.load(&addr(1), Ok(None)), Ok(()));
    assert_eq!(
        o.load(&addr(1), Err(StorageError::IncompleteDatabase(addr(9)))),
        Ok(())
    );
    assert_eq!(
        seen(&o, &addr(1)),
        Seen::Present(U256::from_u64(50), AccountState::CleanFresh)
    );
}

#[test]
fn load_of_a_missing_account_installs_a_clean_tombstone() {
    let mut o = AVMAccMgr::new();
    assert_eq!(o.load(&addr(1), Ok(None)), Ok(()));
    assert_eq!(seen(&o, &addr(1)), Seen::Tombstone(AccountState::CleanFresh));
    assert!(o.account(&addr(1)).is_none());
    assert!(o.dirty_addresses().is_empty());
}

#[test]
fn load_hands_failures_on() {
    let mut o = AVMAccMgr::new();
    let root = blake2b(&[4]);
    assert_eq!(
        o.load(&addr(1), Err(StorageError::InvalidStateRoot(root))),
        Err(StorageError::InvalidStateRoot(root))
    );
    assert_eq!(
        o.load(&addr(1), Ok(Some(vec![0xc0]))),
        Err(StorageError::Encoding)
    );
    assert_eq!(seen(&o, &addr(1)), Seen::Absent);
    assert!(o.load_key(&addr(1)).is_some());
}

#[test]
fn a_load_inside_a_checkpoint_is_forgotten_by_a_revert() {
    let mut o = AVMAccMgr::new();
    o.checkpoint();
    assert_eq!(o.load(&addr(1), Ok(None)), Ok(()));
    o.revert_to_checkpoint();
    assert_eq!(seen(&o, &addr(1)), Seen::Absent);
}
