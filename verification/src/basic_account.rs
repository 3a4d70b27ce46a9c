//! The fields of an account as the account trie stores them, and their
//! encoding: a list of the nonce, the balance, the storage root and the code
//! hash.

use crate::bytes::bytes_view;
use crate::codec::{be_bytes, rlp_bytes};
use crate::hash::H256;
use crate::uint::U256;
use vstd::prelude::*;

verus! {

/// The fields of an account that the account trie stores.
#[derive(Clone, Copy, Debug, PartialEq, Eq)]
pub struct BasicAccount {
    /// Nonce of the account.
    pub nonce: U256,
    /// Balance of the account.
    pub balance: U256,
    /// Root of the storage trie.
    pub storage_root: H256,
    /// Hash of the code.
    pub code_hash: H256,
}

/// The encodings of the items, one after the other.
pub open spec fn concat_items(items: Seq<Seq<u8>>) -> Seq<u8>
    decreases items.len(),
{
    if items.len() == 0 {
        Seq::empty()
    } else {
        concat_items(items.drop_last()) + rlp_bytes(items.last())
    }
}

/// The encoding of a list of byte strings: the encodings of the items one
/// after the other, behind the byte `0xc0 + length` where they are up to 55
/// bytes together, else behind the byte `0xf7 + k` and the `k` bytes of
/// their length.
pub open spec fn rlp_list_bytes(items: Seq<Seq<u8>>) -> Seq<u8> {
    let payload = concat_items(items);
    if payload.len() <= 55 {
        seq![(0xc0 + payload.len()) as u8] + payload
    } else {
        let len = be_bytes(payload.len());
        seq![(0xf7 + len.len()) as u8] + len + payload
    }
}

/// The byte string that the item at `index` of the encoded list `raw`
/// holds; `None` where `raw` is no list, has no such item, or the item is
/// no byte string.
pub uninterp spec fn rlp_list_item(raw: Seq<u8>, index: nat) -> Option<Seq<u8>>;

/// The items as byte strings.
pub open spec fn items_view(items: Seq<Vec<u8>>) -> Seq<Seq<u8>> {
    Seq::new(items.len(), |i: int| items[i]@)
}

/// The four items that encode an account: the nonce and the balance in
/// their shortest big-endian form, the storage root, the code hash.
pub open spec fn account_items(
    nonce: nat,
    balance: nat,
    storage_root: Seq<u8>,
    code_hash: Seq<u8>,
) -> Seq<Seq<u8>> {
    seq![be_bytes(nonce), be_bytes(balance), storage_root, code_hash]
}

/// Calls `rlp::encode_list` on the byte vectors and copies the bytes out.
/// The outside crate writes each item as [`rlp_bytes`] states and frames
/// them as [`rlp_list_bytes`] states; it keeps a length in 32 bits, so
/// longer items and longer lists are left out.
#[verifier::external_body]
fn rlp_encode_list(items: &Vec<Vec<u8>>) -> (out: Vec<u8>)
    requires
        forall|i: int| 0 <= i < items@.len() ==> (#[trigger] items@[i])@.len() <= u32::MAX,
        concat_items(items_view(items@)).len() <= u32::MAX,
    ensures
        out@ == rlp_list_bytes(items_view(items@)),
{
    rlp::encode_list::<Vec<u8>, Vec<u8>>(items.as_slice()).to_vec()
}

/// Calls `rlp::Rlp::at` on the bytes and `as_val` on the item that it
/// finds, for a byte vector. What the outside crate reads depends on the
/// bytes and the index alone.
#[verifier::external_body]
fn rlp_item_at(raw: &[u8], index: usize) -> (item: Option<Vec<u8>>)
    ensures
        bytes_view(item) == rlp_list_item(raw@, index as nat),
{
    match rlp::Rlp::new(raw).at(index) {
        Ok(item) => item.as_val::<Vec<u8>>().ok(),
        Err(_) => None,
    }
}

/// The encoding of a byte string of up to 32 bytes is at most 33 bytes
/// long.
proof fn lemma_short_item(item: Seq<u8>)
    requires
        item.len() <= 32,
    ensures
        rlp_bytes(item).len() <= 33,
{
}

/// Bytes that hold an account do not hold none.
pub proof fn lemma_read_is_one(raw: Seq<u8>, account: BasicAccount)
    requires
        BasicAccount::read_from(raw, Some(account)),
    ensures
        !BasicAccount::read_from(raw, None),
{
    account.storage_root.lemma_view(account.code_hash);
    account.code_hash.lemma_view(account.storage_root);
}

impl BasicAccount {
    /// The account that the four items stand for, `None` where they stand
    /// for none.
    pub open spec fn of_items(
        nonce: Seq<u8>,
        balance: Seq<u8>,
        storage_root: Seq<u8>,
        code_hash: Seq<u8>,
        account: Option<BasicAccount>,
    ) -> bool {
        match account {
            Some(a) => {
                &&& nonce == be_bytes(a.nonce@)
                &&& balance == be_bytes(a.balance@)
                &&& storage_root == a.storage_root@
                &&& code_hash == a.code_hash@
            },
            None => {
                ||| forall|x: U256| nonce != #[trigger] be_bytes(x@)
                ||| forall|x: U256| balance != #[trigger] be_bytes(x@)
                ||| storage_root.len() != 32
                ||| code_hash.len() != 32
            },
        }
    }

    /// What reading the encoded list `raw` yields: the account that its
    /// first four items stand for.
    pub open spec fn read_from(raw: Seq<u8>, account: Option<BasicAccount>) -> bool {
        match (
            rlp_list_item(raw, 0),
            rlp_list_item(raw, 1),
            rlp_list_item(raw, 2),
            rlp_list_item(raw, 3),
        ) {
            (Some(nonce), Some(balance), Some(storage_root), Some(code_hash)) => {
                BasicAccount::of_items(nonce, balance, storage_root, code_hash, account)
            },
            _ => account is None,
        }
    }

    /// The four items that encode the account.
    pub fn to_items(&self) -> (r: Vec<Vec<u8>>)
        ensures
            items_view(r@) == account_items(
                self.nonce@,
                self.balance@,
                self.storage_root@,
                self.code_hash@,
            ),
    {
        let mut items: Vec<Vec<u8>> = Vec::new();
        items.push(self.nonce.to_be_vec());
        items.push(self.balance.to_be_vec());
        items.push(self.storage_root.to_vec());
        items.push(self.code_hash.to_vec());
        assert(items_view(items@) =~= account_items(
            self.nonce@,
            self.balance@,
            self.storage_root@,
            self.code_hash@,
        ));
        items
    }

    /// The account that the four items stand for: the nonce and the
    /// balance in their shortest big-endian form, the storage root and the
    /// code hash of 32 bytes each. `None` where an item has another form.
    pub fn from_items(nonce: &[u8], balance: &[u8], storage_root: &[u8], code_hash: &[u8]) -> (r:
        Option<BasicAccount>)
        ensures
            BasicAccount::of_items(nonce@, balance@, storage_root@, code_hash@, r),
    {
        let nonce = match U256::from_be_canonical(nonce) {
            Some(x) => x,
            None => {
                return None;
            },
        };
        let balance = match U256::from_be_canonical(balance) {
            Some(x) => x,
            None => {
                return None;
            },
        };
        let storage_root = match H256::from_slice(storage_root) {
            Some(h) => h,
            None => {
                return None;
            },
        };
        let code_hash = match H256::from_slice(code_hash) {
            Some(h) => h,
            None => {
                proof {
                    H256::lemma_view(storage_root, storage_root);
                }
                return None;
            },
        };
        Some(BasicAccount { nonce, balance, storage_root, code_hash })
    }

    /// The encoding of the account: the list of its four items.
    pub fn rlp(&self) -> (r: Vec<u8>)
        ensures
            r@ == rlp_list_bytes(
                account_items(self.nonce@, self.balance@, self.storage_root@, self.code_hash@),
            ),
    {
        let items = self.to_items();
        proof {
            let views = items_view(items@);
            self.nonce.lemma_short();
            self.balance.lemma_short();
            H256::lemma_view(self.storage_root, self.code_hash);
            H256::lemma_view(self.code_hash, self.storage_root);
            let fields = account_items(
                self.nonce@,
                self.balance@,
                self.storage_root@,
                self.code_hash@,
            );
            assert(views == fields);
            assert(fields.len() == 4);
            assert(items@.len() == 4);
            assert(fields[0] == be_bytes(self.nonce@) && fields[1] == be_bytes(self.balance@)
                && fields[2] == self.storage_root@ && fields[3] == self.code_hash@);
            assert(views[0] == items@[0]@ && views[1] == items@[1]@ && views[2] == items@[2]@
                && views[3] == items@[3]@);
            lemma_short_item(views[0]);
            lemma_short_item(views[1]);
            lemma_short_item(views[2]);
            lemma_short_item(views[3]);
            reveal_with_fuel(concat_items, 5);
            assert(views.drop_last().drop_last().drop_last().drop_last().len() == 0);
            assert(concat_items(views).len() <= 132);
        }
        rlp_encode_list(&items)
    }

    /// The account that the encoded list `rlp` holds in its first four
    /// items; `None` where it holds none.
    pub fn from_rlp(rlp: &[u8]) -> (r: Option<BasicAccount>)
        ensures
            BasicAccount::read_from(rlp@, r),
    {
        let nonce = match rlp_item_at(rlp, 0) {
            Some(item) => item,
            None => {
                return None;
            },
        };
        let balance = match rlp_item_at(rlp, 1) {
            Some(item) => item,
            None => {
                return None;
            },
        };
        let storage_root = match rlp_item_at(rlp, 2) {
            Some(item) => item,
            None => {
                return None;
            },
        };
        let code_hash = match rlp_item_at(rlp, 3) {
            Some(item) => item,
            None => {
                return None;
            },
        };
        BasicAccount::from_items(
            nonce.as_slice(),
            balance.as_slice(),
            storage_root.as_slice(),
            code_hash.as_slice(),
        )
    }
}

} // verus!
