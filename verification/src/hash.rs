//! 256-bit hashes and the hash function that produces them.

use vstd::prelude::*;
use vstd::std_specs::cmp::PartialEqSpecImpl;

verus! {

/// The BLAKE2b digest of 32 bytes of the empty input: the code hash of an
/// account without code.
pub const BLAKE2B_EMPTY_BYTES: [u8; 32] = [
    0x0e, 0x57, 0x51, 0xc0, 0x26, 0xe5, 0x43, 0xb2, 0xe8, 0xab, 0x2e, 0xb0, 0x60, 0x99, 0xda, 0xa1,
    0xd1, 0xe5, 0xdf, 0x47, 0x77, 0x8f, 0x77, 0x87, 0xfa, 0xab, 0x45, 0xcd, 0xf1, 0x2f, 0xe3, 0xa8,
];

/// The BLAKE2b digest of 32 bytes of the encoding of the empty item: the
/// root of a trie that holds nothing.
pub const BLAKE2B_NULL_RLP_BYTES: [u8; 32] = [
    0x45, 0xb0, 0xcf, 0xc2, 0x20, 0xce, 0xec, 0x5b, 0x7c, 0x1c, 0x62, 0xc4, 0xd4, 0x19, 0x3d, 0x38,
    0xe4, 0xeb, 0xa4, 0x8e, 0x88, 0x15, 0x72, 0x9c, 0xe7, 0x5f, 0x9c, 0x0a, 0xb0, 0xe4, 0xc1, 0xc0,
];

/// Thirty-two zero bytes.
pub const ZERO_BYTES: [u8; 32] = [
    0, 0, 0, 0, 0, 0, 0, 0, 0, 0, 0, 0, 0, 0, 0, 0, 0, 0, 0, 0, 0, 0, 0, 0, 0, 0, 0, 0, 0, 0, 0, 0,
];

/// The 32-byte BLAKE2b digest of a byte string.
pub uninterp spec fn blake2b_256(input: Seq<u8>) -> Seq<u8>;

/// A hash of 256 bits.
#[derive(Clone, Copy, Debug)]
pub struct H256 {
    bytes: [u8; 32],
}

/// An account address.
pub type Address = H256;

impl View for H256 {
    type V = Seq<u8>;

    closed spec fn view(&self) -> Seq<u8> {
        self.bytes@
    }
}

impl PartialEq for H256 {
    fn eq(&self, other: &H256) -> (r: bool) {
        let mut i: usize = 0;
        while i < 32
            invariant
                i <= 32,
                forall|j: int| 0 <= j < i ==> self.bytes@[j] == other.bytes@[j],
            decreases 32 - i,
        {
            if self.bytes[i] != other.bytes[i] {
                return false;
            }
            i += 1;
        }
        assert(self.bytes@ =~= other.bytes@);
        true
    }
}

impl Eq for H256 {

}

impl PartialEqSpecImpl for H256 {
    open spec fn obeys_eq_spec() -> bool {
        true
    }

    open spec fn eq_spec(&self, other: &H256) -> bool {
        self@ == other@
    }
}

impl H256 {
    /// A hash is 32 bytes long, and two hashes with the same bytes are the
    /// same hash.
    pub proof fn lemma_view(self, other: H256)
        ensures
            self@.len() == 32,
            self@ == other@ <==> self == other,
    {
        if self@ == other@ {
            assert(self.bytes =~= other.bytes);
        }
    }

    /// The hash of 32 zero bytes.
    pub closed spec fn zero_hash() -> H256 {
        H256 { bytes: ZERO_BYTES }
    }

    /// The hash of 32 zero bytes.
    pub fn zero() -> (r: H256)
        ensures
            r == H256::zero_hash(),
            r@ == ZERO_BYTES@,
    {
        H256 { bytes: ZERO_BYTES }
    }

    /// The hash made of the given bytes.
    pub fn from_bytes(bytes: [u8; 32]) -> (r: H256)
        ensures
            r@ == bytes@,
    {
        H256 { bytes }
    }

    /// The hash made of the given bytes, `None` unless they are 32.
    pub fn from_slice(bytes: &[u8]) -> (r: Option<H256>)
        ensures
            match r {
                Some(hash) => hash@ == bytes@,
                None => bytes@.len() != 32,
            },
    {
        if bytes.len() != 32 {
            return None;
        }
        let mut out: [u8; 32] = ZERO_BYTES;
        let mut i: usize = 0;
        while i < 32
            invariant
                i <= 32,
                bytes.len() == 32,
                forall|j: int| 0 <= j < i ==> out@[j] == bytes@[j],
            decreases 32 - i,
        {
            out[i] = bytes[i];
            i += 1;
        }
        assert(out@ =~= bytes@);
        Some(H256 { bytes: out })
    }

    /// The bytes of the hash.
    pub fn as_bytes(&self) -> (r: &[u8; 32])
        ensures
            r@ == self@,
    {
        &self.bytes
    }

    /// The bytes of the hash, as a vector.
    pub fn to_vec(&self) -> (r: Vec<u8>)
        ensures
            r@ == self@,
    {
        let mut out: Vec<u8> = Vec::new();
        let mut i: usize = 0;
        while i < 32
            invariant
                i <= 32,
                out@ == self.bytes@.take(i as int),
            decreases 32 - i,
        {
            out.push(self.bytes[i]);
            assert(self.bytes@.take(i + 1) == self.bytes@.take(i as int).push(self.bytes@[i as int]));
            i += 1;
        }
        assert(self.bytes@.take(32) == self.bytes@);
        out
    }
}

/// Calls `blake2b_simd::Params::hash` with a digest length of 32 bytes, and
/// copies the digest out. The result is the BLAKE2b-256 digest of `input`;
/// which bytes those are is left to the outside crate.
#[verifier::external_body]
fn blake2b_digest(input: &[u8]) -> (out: [u8; 32])
    ensures
        out@ == blake2b_256(input@),
{
    let digest = blake2b_simd::Params::new().hash_length(32).hash(input);
    let mut out = [0u8; 32];
    out.copy_from_slice(digest.as_bytes());
    out
}

/// The BLAKE2b-256 hash of `input`.
pub fn blake2b(input: &[u8]) -> (r: H256)
    ensures
        r@ == blake2b_256(input@),
{
    H256::from_bytes(blake2b_digest(input))
}

/// The hash of the empty input, which stands for "no code".
pub fn blake2b_empty() -> (r: H256)
    ensures
        r@ == BLAKE2B_EMPTY_BYTES@,
{
    H256::from_bytes(BLAKE2B_EMPTY_BYTES)
}

/// The root hash of the empty trie, which stands for "no storage".
pub fn blake2b_null_rlp() -> (r: H256)
    ensures
        r@ == BLAKE2B_NULL_RLP_BYTES@,
{
    H256::from_bytes(BLAKE2B_NULL_RLP_BYTES)
}

} // verus!
