//! A view onto the encoding of a block body: a list whose first item is
//! the list of the block's transactions.

use crate::bytes::bytes_view;
use crate::hash::{blake2b, blake2b_256, H256};
use vstd::prelude::*;

verus! {

/// The number of items of the encoded list `raw`; `None` where `raw` is no
/// list.
pub uninterp spec fn rlp_list_len(raw: Seq<u8>) -> Option<nat>;

/// The encoding of the item at `index` of the encoded list `raw`, header
/// included; `None` where `raw` is no list or has no such item.
pub uninterp spec fn rlp_list_raw(raw: Seq<u8>, index: nat) -> Option<Seq<u8>>;

/// Calls `rlp::Rlp::item_count` on the bytes. What the outside crate counts
/// depends on the bytes alone.
#[verifier::external_body]
fn rlp_item_count(raw: &[u8]) -> (count: Option<usize>)
    ensures
        match count {
            Some(n) => rlp_list_len(raw@) == Some(n as nat),
            None => rlp_list_len(raw@) is None,
        },
{
    rlp::Rlp::new(raw).item_count().ok()
}

/// Calls `rlp::Rlp::at` on the bytes and copies out the bytes of the item
/// that it finds. What the outside crate finds depends on the bytes and the
/// index alone.
#[verifier::external_body]
fn rlp_raw_at(raw: &[u8], index: usize) -> (item: Option<Vec<u8>>)
    ensures
        bytes_view(item) == rlp_list_raw(raw@, index as nat),
{
    match rlp::Rlp::new(raw).at(index) {
        Ok(item) => Some(item.as_raw().to_vec()),
        Err(_) => None,
    }
}

/// The hashes of the first `count` items of the encoded list `list`; `None`
/// where one of them is missing.
pub open spec fn item_hashes(list: Seq<u8>, count: nat) -> Option<Seq<Seq<u8>>>
    decreases count,
{
    if count == 0 {
        Some(Seq::empty())
    } else {
        match (item_hashes(list, (count - 1) as nat), rlp_list_raw(list, (count - 1) as nat)) {
            (Some(hashes), Some(item)) => Some(hashes.push(blake2b_256(item))),
            _ => None,
        }
    }
}

/// The hashes as byte strings.
pub open spec fn hashes_view(hashes: Option<Vec<H256>>) -> Option<Seq<Seq<u8>>> {
    match hashes {
        Some(v) => Some(Seq::new(v@.len(), |i: int| v@[i]@)),
        None => None,
    }
}

/// View onto the encoding of a block body.
#[derive(Debug, Clone, Copy)]
pub struct BodyView<'a> {
    bytes: &'a [u8],
}

impl<'a> BodyView<'a> {
    /// The bytes that the view looks at.
    pub closed spec fn raw(&self) -> Seq<u8> {
        self.bytes@
    }

    /// The encoded list of the transactions: the first item of the body.
    pub open spec fn transactions_list(&self) -> Option<Seq<u8>> {
        rlp_list_raw(self.raw(), 0)
    }

    /// Creates new view onto block body from raw bytes.
    pub fn new(bytes: &'a [u8]) -> (r: BodyView<'a>)
        ensures
            r.raw() == bytes@,
    {
        BodyView { bytes: bytes }
    }

    /// The bytes that the view looks at.
    pub fn rlp(&self) -> (r: &'a [u8])
        ensures
            r@ == self.raw(),
    {
        self.bytes
    }

    /// The number of transactions in the block, without decoding them;
    /// `None` where the body holds no list of transactions.
    pub fn transactions_count(&self) -> (r: Option<usize>)
        ensures
            match self.transactions_list() {
                Some(list) => match r {
                    Some(n) => rlp_list_len(list) == Some(n as nat),
                    None => rlp_list_len(list) is None,
                },
                None => r is None,
            },
    {
        match rlp_raw_at(self.bytes, 0) {
            Some(list) => rlp_item_count(list.as_slice()),
            None => None,
        }
    }

    /// The encoding of the transaction at `index`; `None` where the body
    /// holds none there.
    pub fn transaction_raw_at(&self, index: usize) -> (r: Option<Vec<u8>>)
        ensures
            bytes_view(r) == match self.transactions_list() {
                Some(list) => rlp_list_raw(list, index as nat),
                None => None,
            },
    {
        match rlp_raw_at(self.bytes, 0) {
            Some(list) => rlp_raw_at(list.as_slice(), index),
            None => None,
        }
    }

    /// The hashes of the transactions, each the hash of the transaction's
    /// encoding, in the order of the block; `None` where the body holds no
    /// list of transactions or one of them cannot be read.
    pub fn transaction_hashes(&self) -> (r: Option<Vec<H256>>)
        ensures
            hashes_view(r) == match self.transactions_list() {
                Some(list) => match rlp_list_len(list) {
                    Some(count) => item_hashes(list, count),
                    None => None,
                },
                None => None,
            },
    {
        let list = match rlp_raw_at(self.bytes, 0) {
            Some(list) => list,
            None => {
                return None;
            },
        };
        let count: usize = match rlp_item_count(list.as_slice()) {
            Some(count) => count,
            None => {
                return None;
            },
        };
        let mut hashes: Vec<H256> = Vec::new();
        let mut i: usize = 0;
        while i < count
            invariant
                i <= count,
                self.transactions_list() == Some(list@),
                rlp_list_len(list@) == Some(count as nat),
                item_hashes(list@, i as nat) == hashes_view(Some(hashes)),
            decreases count - i,
        {
            match rlp_raw_at(list.as_slice(), i) {
                Some(item) => {
                    let ghost before = hashes@;
                    hashes.push(blake2b(item.as_slice()));
                    assert(Seq::new(hashes@.len(), |k: int| hashes@[k]@) =~= Seq::new(
                        before.len(),
                        |k: int| before[k]@,
                    ).push(blake2b_256(item@)));
                },
                None => {
                    proof {
                        lemma_item_hashes_prefix(list@, i as nat + 1, count as nat);
                    }
                    return None;
                },
            }
            i += 1;
        }
        Some(hashes)
    }
}

/// Where the first items of a list cannot all be read, more of them cannot
/// either.
pub proof fn lemma_item_hashes_prefix(list: Seq<u8>, fewer: nat, count: nat)
    requires
        fewer <= count,
        item_hashes(list, fewer) is None,
    ensures
        item_hashes(list, count) is None,
    decreases count,
{
    if fewer < count {
        lemma_item_hashes_prefix(list, fewer, (count - 1) as nat);
    }
}

} // verus!
