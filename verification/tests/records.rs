use account_overlay::account::AVMAccount;
use account_overlay::basic_account::BasicAccount;
use account_overlay::body::BodyView;
use account_overlay::hash::{blake2b, blake2b_empty, blake2b_null_rlp, H256};
use account_overlay::msg::{Action, Head};
use account_overlay::sync_rules::{
    broadcast_targets, is_ancient_block, is_frequent_broadcast, is_syncing, request,
    MAX_BROADCAST_NODES, MAX_NEW_BLOCK_AGE,
};
use account_overlay::uint::U256;
use account_overlay::vm::ReturnData;

#[test]
fn u256_from_big_endian_bytes() {
    assert_eq!(U256::from_be_slice(&[]), Some(U256::zero()));
    assert_eq!(U256::from_be_slice(&[0x45]), Some(U256::from_u64(0x45)));
    assert_eq!(U256::from_be_slice(&[0, 0, 1, 0]), Some(U256::from_u64(256)));
    let mut sixteen = [0u8; 16];
    sixteen[0] = 0x80;
    assert_eq!(
        U256::from_be_slice(&sixteen),
        Some(U256::from_words(0, 1u128 << 127))
    );
    let mut seventeen = [0u8; 17];
    seventeen[0] = 2;
    seventeen[16] = 3;
    assert_eq!(
        U256::from_be_slice(&seventeen),
        Some(U256::from_words(2, 3))
    );
    assert_eq!(
        U256::from_be_slice(&[0xff; 32]),
        Some(U256::from_words(u128::MAX, u128::MAX))
    );
    assert_eq!(U256::from_be_slice(&[0; 33]), None);
    assert_eq!(U256::from_be_slice(&[1; 40]), None);
}

#[test]
fn u256_canonical_big_endian_bytes() {
    assert_eq!(U256::from_be_canonical(&[]), Some(U256::zero()));
    assert_eq!(U256::from_be_canonical(&[1, 0]), Some(U256::from_u64(256)));
    assert_eq!(U256::from_be_canonical(&[0]), None);
    assert_eq!(U256::from_be_canonical(&[0, 1]), None);
    assert_eq!(U256::from_be_canonical(&[1; 33]), None);
    assert_eq!(
        U256::from_be_canonical(&[0xff; 32]),
        Some(U256::from_words(u128::MAX, u128::MAX))
    );
}

#[test]
fn u256_to_big_endian_bytes() {
    assert_eq!(U256::zero().to_be_vec(), Vec::<u8>::new());
    assert_eq!(U256::from_u64(0x45).to_be_vec(), vec![0x45]);
    assert_eq!(U256::from_u64(256).to_be_vec(), vec![1, 0]);
    assert_eq!(
        U256::from_words(0, u128::MAX).to_be_vec(),
        vec![0xff; 16]
    );
    let mut expected = vec![2u8];
    expected.extend_from_slice(&[0u8; 15]);
    expected.push(3);
    assert_eq!(U256::from_words(2, 3).to_be_vec(), expected);
    assert_eq!(
        U256::from_words(u128::MAX, u128::MAX).to_be_vec(),
        vec![0xff; 32]
    );
    for x in [
        U256::zero(),
        U256::from_u64(1),
        U256::from_u64(u64::MAX),
        U256::from_words(1, 0),
        U256::from_words(0x0102, 0x0304),
        U256::from_words(u128::MAX, 7),
    ] {
        assert_eq!(U256::from_be_canonical(&x.to_be_vec()), Some(x));
        assert_eq!(U256::from_be_slice(&x.to_be_vec()), Some(x));
    }
}

#[test]
fn hash_from_slice_needs_32_bytes() {
    assert_eq!(H256::from_slice(&[7; 32]).unwrap().to_vec(), vec![7; 32]);
    assert_eq!(H256::from_slice(&[7; 31]), None);
    assert_eq!(H256::from_slice(&[7; 33]), None);
    assert_eq!(H256::from_slice(&[]), None);
    let h = blake2b(&[1]);
    assert_eq!(H256::from_slice(h.as_bytes()), Some(h));
}

fn sample() -> BasicAccount {
    BasicAccount {
        nonce: U256::zero(),
        balance: U256::from_u64(69),
        storage_root: blake2b_null_rlp(),
        code_hash: blake2b_empty(),
    }
}

#[test]
fn basic_account_items() {
    let items = sample().to_items();
    assert_eq!(
        items,
        vec![
            vec![],
            vec![69],
            blake2b_null_rlp().to_vec(),
            blake2b_empty().to_vec()
        ]
    );
    assert_eq!(
        BasicAccount::from_items(&items[0], &items[1], &items[2], &items[3]),
        Some(sample())
    );
    // a leading zero, a long number, a short hash
    assert_eq!(
        BasicAccount::from_items(&[0], &items[1], &items[2], &items[3]),
        None
    );
    assert_eq!(
        BasicAccount::from_items(&items[0], &[1; 33], &items[2], &items[3]),
        None
    );
    assert_eq!(
        BasicAccount::from_items(&items[0], &items[1], &items[2][1..], &items[3]),
        None
    );
    assert_eq!(
        BasicAccount::from_items(&items[0], &items[1], &items[2], &[]),
        None
    );
}

#[test]
fn basic_account_encoding() {
    let mut expected = vec![0xf8, 0x44, 0x80, 0x45, 0xa0];
    expected.extend_from_slice(blake2b_null_rlp().as_bytes());
    expected.push(0xa0);
    expected.extend_from_slice(blake2b_empty().as_bytes());
    assert_eq!(sample().rlp(), expected);
    assert_eq!(BasicAccount::from_rlp(&expected), Some(sample()));

    let big = BasicAccount {
        nonce: U256::from_u64(0x1234),
        balance: U256::from_words(1, 2),
        storage_root: blake2b(&[1]),
        code_hash: blake2b(&[2]),
    };
    let raw = big.rlp();
    assert_eq!(raw[0], 0xf8);
    assert_eq!(raw[1] as usize, raw.len() - 2);
    assert_eq!(&raw[2..5], &[0x82, 0x12, 0x34]);
    assert_eq!(raw[5], 0x80 + 17);
    assert_eq!(BasicAccount::from_rlp(&raw), Some(big));
}

#[test]
fn basic_account_decoding_refuses() {
    assert_eq!(BasicAccount::from_rlp(&[]), None);
    // no list
    assert_eq!(BasicAccount::from_rlp(&[0x80]), None);
    // a list of three items
    assert_eq!(BasicAccount::from_rlp(&[0xc3, 1, 2, 3]), None);
    // a list of four items with short hashes
    assert_eq!(BasicAccount::from_rlp(&[0xc4, 1, 2, 3, 4]), None);
    // cut off
    let raw = sample().rlp();
    assert_eq!(BasicAccount::from_rlp(&raw[..raw.len() - 1]), None);
}

#[test]
fn account_from_rlp() {
    let raw = sample().rlp();
    let mut account = AVMAccount::from_rlp(&raw).unwrap();
    assert_eq!(*account.balance(), U256::from_u64(69));
    assert_eq!(*account.nonce(), U256::zero());
    assert_eq!(account.storage_root(), blake2b_null_rlp());
    assert_eq!(account.code_hash(), blake2b_empty());
    assert_eq!(account.code_size(), None);
    assert!(account.storage_is_clean());
    assert_eq!(account.cached_storage_at(&vec![1]), None);
    assert_eq!(account.basic(), sample());
    assert!(AVMAccount::from_rlp(&[0xc0]).is_none());
}

fn body_of(transactions: &[Vec<u8>]) -> Vec<u8> {
    let mut s = rlp::RlpStream::new_list(2);
    s.begin_list(transactions.len());
    for t in transactions {
        s.append(t);
    }
    s.begin_list(0);
    s.out().to_vec()
}

#[test]
fn body_view_counts_and_hashes_transactions() {
    let body = body_of(&[vec![1, 2], vec![3], vec![9; 60]]);
    let view = BodyView::new(&body);
    assert_eq!(view.rlp(), &body[..]);
    assert_eq!(view.transactions_count(), Some(3));
    assert_eq!(view.transaction_raw_at(0), Some(vec![0x82, 1, 2]));
    assert_eq!(view.transaction_raw_at(1), Some(vec![3]));
    let mut long = vec![0xb8, 60];
    long.extend_from_slice(&[9; 60]);
    assert_eq!(view.transaction_raw_at(2), Some(long.clone()));
    assert_eq!(view.transaction_raw_at(3), None);
    assert_eq!(
        view.transaction_hashes(),
        Some(vec![blake2b(&[0x82, 1, 2]), blake2b(&[3]), blake2b(&long)])
    );
}

#[test]
fn body_view_of_an_empty_block() {
    let body = body_of(&[]);
    let view = BodyView::new(&body);
    assert_eq!(view.transactions_count(), Some(0));
    assert_eq!(view.transaction_hashes(), Some(vec![]));
    assert_eq!(view.transaction_raw_at(0), None);
}

#[test]
fn body_view_of_bytes_that_are_no_body() {
    let view = BodyView::new(&[]);
    assert_eq!(view.transactions_count(), None);
    assert_eq!(view.transaction_hashes(), None);
    assert_eq!(view.transaction_raw_at(0), None);
    // a list whose first item is no list
    let bytes = [0xc2, 0x01, 0x02];
    let view = BodyView::new(&bytes);
    assert_eq!(view.transactions_count(), None);
    assert_eq!(view.transaction_hashes(), None);
}

#[test]
fn sync_decisions() {
    assert!(is_syncing(10, 15));
    assert!(!is_syncing(10, 14));
    assert!(!is_syncing(10, 3));
    assert!(!is_syncing(0, 4));
    assert!(is_syncing(0, 5));
    assert!(!is_syncing(u64::MAX, u64::MAX));
    assert!(!is_syncing(u64::MAX - 2, u64::MAX));

    assert_eq!(MAX_NEW_BLOCK_AGE, 20);
    assert!(is_ancient_block(100, 79));
    assert!(!is_ancient_block(100, 80));
    assert!(!is_ancient_block(100, 100));
    assert!(!is_ancient_block(100, 200));

    assert!(is_frequent_broadcast(0));
    assert!(is_frequent_broadcast(19));
    assert!(!is_frequent_broadcast(20));

    assert_eq!(MAX_BROADCAST_NODES, 11);
    assert_eq!(broadcast_targets(0), 0);
    assert_eq!(broadcast_targets(5), 5);
    assert_eq!(broadcast_targets(11), 11);
    assert_eq!(broadcast_targets(12), 11);
    assert_eq!(broadcast_targets(1000), 11);
}

#[test]
fn request_tells_the_length_of_its_body() {
    let r = request(Action::BroadcastBlock, vec![1, 2, 3]);
    assert_eq!(r.head, Head { ver: 0, ctrl: 1, action: 7, len: 3 });
    assert_eq!(r.body, vec![1, 2, 3]);
    let e = request(Action::BroadcastTx, vec![]);
    assert_eq!(e.head, Head { ver: 0, ctrl: 1, action: 6, len: 0 });
    assert_eq!(Action::StatusReq.value(), 0);
    assert_eq!(Action::StatusRes.value(), 1);
    assert_eq!(Action::HeadersReq.value(), 2);
    assert_eq!(Action::HeadersRes.value(), 3);
    assert_eq!(Action::BodiesReq.value(), 4);
    assert_eq!(Action::BodiesRes.value(), 5);
}

#[test]
fn return_data_bounds() {
    assert!(ReturnData::empty().is_in_bounds());
    assert!(ReturnData::new(vec![1, 2, 3], 1, 2).is_in_bounds());
    assert!(ReturnData::new(vec![1, 2, 3], 3, 0).is_in_bounds());
    assert!(!ReturnData::new(vec![1, 2, 3], 2, 2).is_in_bounds());
    assert!(!ReturnData::new(vec![1, 2, 3], 4, 0).is_in_bounds());
    assert!(!ReturnData::new(vec![1, 2, 3], usize::MAX, 2).is_in_bounds());
    assert!(!ReturnData::new(vec![], 0, usize::MAX).is_in_bounds());
}
