//! An in-memory, transactional overlay over account state.
//!
//! An account record ([`account::AVMAccount`]) holds the balance, nonce and
//! code of one account, stages the writes to its storage and remembers
//! recent reads of it. The overlay ([`overlay::AVMAccMgr`]) keeps an
//! address-keyed cache of such records together with a stack of
//! checkpoints, so that a failed nested call is rolled back exactly and a
//! finished one is kept.
//!
//! The library reads no store and writes none. Where an operation needs an
//! answer of the backing trie or store, it takes that answer as an
//! argument; where it has something to write, it returns what is to be
//! written. What the records and the overlay hold is modelled in
//! [`model`] and [`overlay_model`], which also state the laws of the
//! storage round trip and of checkpoint, revert and discard.

pub mod account;
pub mod address_map;
pub mod basic_account;
pub mod block_number;
pub mod body;
pub mod bytes;
pub mod codec;
pub mod entry;
pub mod hash;
pub mod interface;
pub mod lru;
pub mod model;
pub mod msg;
pub mod overlay;
pub mod overlay_model;
pub mod sync_rules;
pub mod uint;
pub mod vm;
