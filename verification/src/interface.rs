//! The interface through which a virtual machine reaches the state.

use crate::account::AVMAccount;
use crate::hash::Address;
use crate::model::StorageError;
use vstd::prelude::*;

verus! {

/// What of an account has to be at hand before it is looked at.
#[derive(PartialEq, Eq, Clone, Copy, Debug, Structural)]
pub enum RequireCache {
    /// Nothing more than the account itself.
    Nothing,
    /// The size of its code.
    CodeSize,
    /// Its code.
    Code,
}

/// What a state offers to a virtual machine. A state implements it over its
/// overlay and its backing store; a failure of the store is handed on.
pub trait AVMInterface {
    /// Create an account at the address.
    fn new_avm_account(&mut self, a: &Address) -> Result<(), StorageError>;

    /// Whether an account exists at the address.
    fn check_avm_acc_exists(&self, a: &Address) -> Result<bool, StorageError>;

    /// Stage a value in the storage of the account at the address.
    fn set_avm_storage(&mut self, a: &Address, key: Vec<u8>, value: Vec<u8>) -> Result<
        (),
        StorageError,
    >;

    /// Read a value from the storage of the account at the address.
    fn get_avm_storage(&self, a: &Address, key: &Vec<u8>) -> Result<Vec<u8>, StorageError>;

    /// Remove the account at the address.
    fn remove_avm_account(&mut self, a: &Address) -> Result<(), StorageError>;

    /// Bring the account at the address to the cache, with what `require`
    /// names of it, and hand it to `f`.
    fn ensure_avm_cached<F, U>(
        &self,
        a: &Address,
        require: RequireCache,
        check_null: bool,
        f: F,
    ) -> Result<U, StorageError> where F: Fn(Option<&AVMAccount>) -> U;
}

} // verus!
