//! Values that pass between the state and the virtual machine.

use crate::hash::{blake2b, blake2b_256, Address, H256};
use crate::uint::U256;
use std::sync::Arc;
use vstd::prelude::*;
use vstd::slice::slice_subrange;

verus! {

/// The type of the call-like instruction.
#[derive(Debug, PartialEq, Eq, Clone, Copy, Structural)]
pub enum CallType {
    /// Not a CALL.
    NotACall,
    /// CALL.
    Call,
    /// CALLCODE.
    CallCode,
    /// DELEGATECALL.
    DelegateCall,
    /// STATICCALL
    StaticCall,
    /// A bulk balance transfer.
    BulkBalance,
}

impl CallType {
    /// The number that stands for the call type on the wire. A bulk balance
    /// transfer shares the number of a static call.
    pub open spec fn spec_code(self) -> u32 {
        match self {
            CallType::NotACall => 0,
            CallType::Call => 1,
            CallType::CallCode => 2,
            CallType::DelegateCall => 3,
            CallType::StaticCall => 4,
            CallType::BulkBalance => 4,
        }
    }

    /// The call type that a number on the wire stands for.
    pub open spec fn spec_from_code(code: u32) -> Option<CallType> {
        if code == 0 {
            Some(CallType::NotACall)
        } else if code == 1 {
            Some(CallType::Call)
        } else if code == 2 {
            Some(CallType::CallCode)
        } else if code == 3 {
            Some(CallType::DelegateCall)
        } else if code == 4 {
            Some(CallType::StaticCall)
        } else {
            None
        }
    }

    /// The number that stands for the call type on the wire.
    pub fn code(&self) -> (r: u32)
        ensures
            r == self.spec_code(),
            *self != CallType::BulkBalance ==> CallType::spec_from_code(r) == Some(*self),
    {
        match self {
            CallType::NotACall => 0,
            CallType::Call => 1,
            CallType::CallCode => 2,
            CallType::DelegateCall => 3,
            CallType::StaticCall => 4,
            CallType::BulkBalance => 4,
        }
    }

    /// The call type that `code` stands for, `None` for a number that
    /// stands for none.
    pub fn from_code(code: u32) -> (r: Option<CallType>)
        ensures
            r == CallType::spec_from_code(code),
            r is Some <==> code <= 4,
    {
        match code {
            0 => Some(CallType::NotACall),
            1 => Some(CallType::Call),
            2 => Some(CallType::CallCode),
            3 => Some(CallType::DelegateCall),
            4 => Some(CallType::StaticCall),
            _ => None,
        }
    }
}

/// Return data buffer. Holds memory from a previous call and a slice into
/// that memory.
#[derive(Debug, PartialEq, Eq, Clone)]
pub struct ReturnData {
    mem: Vec<u8>,
    offset: usize,
    size: usize,
}

impl ReturnData {
    /// The memory that the buffer holds.
    pub closed spec fn memory(&self) -> Seq<u8> {
        self.mem@
    }

    /// Where the slice starts in the memory.
    pub closed spec fn start(&self) -> nat {
        self.offset as nat
    }

    /// The length of the slice.
    pub closed spec fn length(&self) -> nat {
        self.size as nat
    }

    /// The slice lies inside the memory.
    pub open spec fn in_bounds(&self) -> bool {
        self.start() + self.length() <= self.memory().len()
    }

    /// Create empty `ReturnData`.
    pub fn empty() -> (r: ReturnData)
        ensures
            r.memory() == Seq::<u8>::empty(),
            r.start() == 0,
            r.length() == 0,
            r.in_bounds(),
    {
        ReturnData { mem: Vec::new(), offset: 0, size: 0 }
    }

    /// Create `ReturnData` from the given buffer and slice.
    pub fn new(mem: Vec<u8>, offset: usize, size: usize) -> (r: ReturnData)
        ensures
            r.memory() == mem@,
            r.start() == offset,
            r.length() == size,
    {
        ReturnData { mem: mem, offset: offset, size: size }
    }

    /// Whether the slice lies inside the memory.
    pub fn is_in_bounds(&self) -> (r: bool)
        ensures
            r == self.in_bounds(),
    {
        self.size <= self.mem.len() && self.offset <= self.mem.len() - self.size
    }

    /// The slice of the memory that is the return data.
    pub fn as_slice(&self) -> (r: &[u8])
        requires
            self.in_bounds(),
        ensures
            r@ == self.memory().subrange(
                self.start() as int,
                self.start() as int + self.length() as int,
            ),
    {
        let len: usize = self.mem.len();
        assert(self.offset + self.size <= len);
        slice_subrange(self.mem.as_slice(), self.offset, self.offset + self.size)
    }
}

/// Result status for execution
#[derive(Debug, PartialEq, Eq, Clone, Copy, Structural)]
pub enum ExecStatus {
    Success,
    OutOfGas,
    Revert,
    Failure,
    Rejected,
}

/// The decimal digits of `n` in ASCII, without leading zeros; `0` for
/// zero.
pub open spec fn decimal_digits(n: nat) -> Seq<u8>
    decreases n,
{
    if n < 10 {
        seq![(0x30 + n) as u8]
    } else {
        decimal_digits(n / 10).push((0x30 + n % 10) as u8)
    }
}

fn push_decimal(out: &mut Vec<u8>, n: u64)
    ensures
        final(out)@ == old(out)@ + decimal_digits(n as nat),
    decreases n,
{
    if n >= 10 {
        push_decimal(out, n / 10);
    }
    out.push(0x30 + (n % 10) as u8);
    assert(out@ =~= old(out)@ + decimal_digits(n as nat));
}

/// The hash that stands for the block with the given number where no
/// chain is at hand: the hash of the number's decimal digits.
pub fn number_hash(number: u64) -> (r: H256)
    ensures
        r@ == blake2b_256(decimal_digits(number as nat)),
{
    let mut text: Vec<u8> = Vec::new();
    push_decimal(&mut text, number);
    blake2b(text.as_slice())
}

/// Information concerning the execution environment for a
/// message-call/contract-creation.
#[derive(Debug, Clone)]
pub struct EnvInfo {
    /// The block number.
    pub number: u64,
    /// The block author.
    pub author: Address,
    /// The block timestamp.
    pub timestamp: u64,
    /// The block difficulty.
    pub difficulty: U256,
    /// The block gas limit.
    pub gas_limit: U256,
    /// The last 256 block hashes.
    pub last_hashes: Arc<Vec<H256>>,
    /// The gas used.
    pub gas_used: U256,
}

impl Default for EnvInfo {
    fn default() -> (r: EnvInfo)
        ensures
            r.number == 0,
            r.author == H256::zero_hash(),
            r.timestamp == 0,
            r.difficulty@ == 0,
            r.gas_limit@ == 0,
            r.last_hashes@.len() == 0,
            r.gas_used@ == 0,
    {
        EnvInfo {
            number: 0,
            author: H256::zero(),
            timestamp: 0,
            difficulty: U256::zero(),
            gas_limit: U256::zero(),
            last_hashes: Arc::new(Vec::new()),
            gas_used: U256::zero(),
        }
    }
}

impl EnvInfo {
    /// The environment of the block with the given number, author,
    /// difficulty, gas limit and timestamp, with no gas used. For the last
    /// hashes stand the hashes of the numbers of up to 256 blocks before
    /// it, the nearest first.
    pub fn from_env(
        number: u64,
        author: Address,
        difficulty: U256,
        gas_limit: U256,
        timestamp: u64,
    ) -> (r: EnvInfo)
        ensures
            r.number == number,
            r.author == author,
            r.difficulty == difficulty,
            r.gas_limit == gas_limit,
            r.timestamp == timestamp,
            r.gas_used@ == 0,
            r.last_hashes@.len() == if number < 256 {
                number as nat
            } else {
                256
            },
            forall|i: int|
                0 <= i < r.last_hashes@.len() ==> (#[trigger] r.last_hashes@[i])@ == blake2b_256(
                    decimal_digits((number - 1 - i) as nat),
                ),
    {
        let count: u64 = if number < 256 {
            number
        } else {
            256
        };
        let mut hashes: Vec<H256> = Vec::new();
        let mut i: u64 = 0;
        while i < count
            invariant
                i <= count <= number,
                hashes@.len() == i,
                forall|k: int|
                    0 <= k < i ==> (#[trigger] hashes@[k])@ == blake2b_256(
                        decimal_digits((number - 1 - k) as nat),
                    ),
            decreases count - i,
        {
            hashes.push(number_hash(number - 1 - i));
            i += 1;
        }
        EnvInfo {
            number,
            author,
            timestamp,
            difficulty,
            gas_limit,
            last_hashes: Arc::new(hashes),
            gas_used: U256::zero(),
        }
    }
}

/// Finalization result.
#[derive(Debug, Clone)]
pub struct ExecutionResult {
    /// Final amount of gas left.
    pub gas_left: U256,
    /// Status code returned from VM
    pub status_code: ExecStatus,
    /// Return data buffer.
    pub return_data: ReturnData,
    /// exception / error message (empty if success)
    pub exception: String,
    /// The state root after the execution.
    pub state_root: H256,
}

impl Default for ExecutionResult {
    fn default() -> (r: ExecutionResult)
        ensures
            r.gas_left@ == 0,
            r.status_code == ExecStatus::Success,
            r.return_data.length() == 0,
            r.return_data.in_bounds(),
            r.exception@.len() == 0,
            r.state_root == H256::zero_hash(),
    {
        ExecutionResult {
            gas_left: U256::zero(),
            status_code: ExecStatus::Success,
            return_data: ReturnData::empty(),
            exception: String::new(),
            state_root: H256::zero(),
        }
    }
}

} // verus!
