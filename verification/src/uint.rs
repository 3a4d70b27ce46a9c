//! A 256-bit unsigned integer, used for balances and nonces.

use crate::codec::{be_bytes, be_value, lemma_be_bytes_of_value, lemma_be_value_of_bytes};
use vstd::prelude::*;

verus! {

/// 256 to the power `n`.
pub open spec fn pow256(n: nat) -> nat
    decreases n,
{
    if n == 0 {
        1
    } else {
        256 * pow256((n - 1) as nat)
    }
}

/// The big-endian representation of `n` in exactly `width` bytes: the
/// lowest `width` bytes of the number.
pub open spec fn fixed_be(n: nat, width: nat) -> Seq<u8>
    decreases width,
{
    if width == 0 {
        Seq::empty()
    } else {
        fixed_be(n / 256, (width - 1) as nat).push((n % 256) as u8)
    }
}

/// A power of 256 is positive.
pub proof fn lemma_pow256_positive(n: nat)
    ensures
        pow256(n) > 0,
    decreases n,
{
    if n > 0 {
        lemma_pow256_positive((n - 1) as nat);
    }
}

/// Sixteen bytes make one 128-bit word, and fewer bytes make less.
pub proof fn lemma_pow256(n: nat)
    requires
        n <= 16,
    ensures
        pow256(16) == word_base(),
        0 < pow256(n) <= word_base(),
        n < 16 ==> 256 * pow256(n) <= word_base(),
    decreases 16 - n,
{
    reveal_with_fuel(pow256, 17);
    if n < 16 {
        lemma_pow256(n + 1);
    }
}

/// The value of bytes in big-endian order lies below 256 to the power of
/// their number.
pub proof fn lemma_be_value_below(s: Seq<u8>)
    ensures
        be_value(s) < pow256(s.len()),
    decreases s.len(),
{
    if s.len() > 0 {
        lemma_be_value_below(s.drop_last());
    }
}

/// The value of two byte strings in a row: the first one weighs 256 to the
/// power of the length of the second.
pub proof fn lemma_be_value_concat(a: Seq<u8>, b: Seq<u8>)
    ensures
        be_value(a + b) == be_value(a) * pow256(b.len()) + be_value(b),
    decreases b.len(),
{
    if b.len() == 0 {
        assert(a + b =~= a);
        assert(be_value(a) * 1 == be_value(a));
    } else {
        assert((a + b).drop_last() =~= a + b.drop_last());
        assert((a + b).last() == b.last());
        lemma_be_value_concat(a, b.drop_last());
        let (x, p) = (be_value(a) as int, pow256((b.len() - 1) as nat) as int);
        assert(x * (256 * p) == (x * p) * 256) by (nonlinear_arith);
    }
}

/// The shortest representation of a number with a high part: the shortest
/// one of the high part, then the low part in full width.
pub proof fn lemma_be_bytes_split(high: nat, low: nat, width: nat)
    requires
        high > 0,
        low < pow256(width),
    ensures
        be_bytes(high * pow256(width) + low) == be_bytes(high) + fixed_be(low, width),
    decreases width,
{
    if width == 0 {
        assert(be_bytes(high) + fixed_be(low, width) == be_bytes(high));
        assert(high * 1 == high);
    } else {
        let p = pow256((width - 1) as nat);
        let n = high * pow256(width) + low;
        lemma_pow256_positive((width - 1) as nat);
        assert(high * (256 * p) == (high * p) * 256) by (nonlinear_arith);
        assert(high * p > 0) by (nonlinear_arith)
            requires
                high > 0,
                p > 0,
        ;
        assert(n / 256 == high * p + low / 256);
        assert(n % 256 == low % 256);
        lemma_be_bytes_split(high, low / 256, (width - 1) as nat);
        assert(be_bytes(n) == be_bytes(n / 256).push((n % 256) as u8));
        assert(be_bytes(n) =~= be_bytes(high) + fixed_be(low, width));
    }
}

/// Two to the power 128: the weight of the high word of a [`U256`].
pub open spec fn word_base() -> nat {
    (u128::MAX as nat) + 1
}

/// The largest value a [`U256`] can hold, two to the power 256 minus one.
pub open spec fn max_u256() -> nat {
    (word_base() * word_base() - 1) as nat
}

/// Multiplying by a non-negative weight keeps the order, and distributes
/// over a sum.
proof fn lemma_weigh(x: int, y: int, b: int)
    requires
        0 <= b,
    ensures
        x <= y ==> x * b <= y * b,
        (x + y) * b == x * b + y * b,
        (x - y) * b == x * b - y * b,
        (x + 1) * b == x * b + b,
{
    assert(x <= y ==> x * b <= y * b) by (nonlinear_arith)
        requires
            0 <= b,
    ;
    assert((x + y) * b == x * b + y * b) by (nonlinear_arith);
    assert((x - y) * b == x * b - y * b) by (nonlinear_arith);
    assert((x + 1) * b == x * b + b) by (nonlinear_arith);
}

/// An unsigned integer of 256 bits, kept as two 128-bit words.
#[derive(Clone, Copy, Debug, PartialEq, Eq, Structural)]
pub struct U256 {
    hi: u128,
    lo: u128,
}

impl View for U256 {
    type V = nat;

    open spec fn view(&self) -> nat {
        self.high() * word_base() + self.low()
    }
}

impl U256 {
    /// The high 128 bits.
    pub closed spec fn high(&self) -> nat {
        self.hi as nat
    }

    /// The low 128 bits.
    pub closed spec fn low(&self) -> nat {
        self.lo as nat
    }

    /// Every value lies below two to the power 256, and each of its words
    /// below two to the power 128.
    pub proof fn lemma_bounded(self)
        ensures
            self@ <= max_u256(),
            self.high() < word_base(),
            self.low() < word_base(),
    {
        let b = word_base() as int;
        lemma_weigh(self.hi as int, b - 1, b);
        lemma_weigh(b - 1, 0, b);
    }

    /// The shortest big-endian representation of a value has at most 32
    /// bytes.
    pub proof fn lemma_short(self)
        ensures
            be_bytes(self@).len() <= 32,
    {
        self.lemma_bounded();
        lemma_pow256(16);
        lemma_pow256_sum(16, 16);
        let (a, b) = (pow256(16) as int, word_base() as int);
        assert(a * a == b * b) by (nonlinear_arith)
            requires
                a == b,
        ;
        lemma_be_bytes_bound(self@, 32);
    }

    /// The number zero.
    pub fn zero() -> (r: U256)
        ensures
            r@ == 0,
    {
        U256 { hi: 0, lo: 0 }
    }

    /// The number `x`.
    pub fn from_u64(x: u64) -> (r: U256)
        ensures
            r@ == x,
    {
        U256 { hi: 0, lo: x as u128 }
    }

    /// The number `hi * 2^128 + lo`.
    pub fn from_words(hi: u128, lo: u128) -> (r: U256)
        ensures
            r@ == hi as nat * word_base() + lo as nat,
            r.high() == hi,
            r.low() == lo,
    {
        U256 { hi, lo }
    }

    /// The two 128-bit words of the number, high word first.
    pub fn to_words(&self) -> (r: (u128, u128))
        ensures
            r.0 == self.high(),
            r.1 == self.low(),
    {
        (self.hi, self.lo)
    }

    /// Whether the number is zero.
    pub fn is_zero(&self) -> (r: bool)
        ensures
            r == (self@ == 0),
    {
        proof {
            lemma_weigh(1, self.hi as int, word_base() as int);
        }
        self.hi == 0 && self.lo == 0
    }

    /// Whether `self` is at most `other`.
    pub fn le(&self, other: &U256) -> (r: bool)
        ensures
            r == (self@ <= other@),
    {
        proof {
            let b = word_base() as int;
            let (h1, h2) = (self.hi as int, other.hi as int);
            lemma_weigh(h1 + 1, h2, b);
            lemma_weigh(h1, 0, b);
            lemma_weigh(h2 + 1, h1, b);
            lemma_weigh(h2, 0, b);
        }
        self.hi < other.hi || (self.hi == other.hi && self.lo <= other.lo)
    }

    /// The sum of the two numbers, or `None` where it needs more than 256
    /// bits.
    pub fn checked_add(&self, other: &U256) -> (r: Option<U256>)
        ensures
            match r {
                Some(s) => s@ == self@ + other@,
                None => self@ + other@ > max_u256(),
            },
    {
        let carry: bool = self.lo > u128::MAX - other.lo;
        let lo: u128 = if carry {
            self.lo - (u128::MAX - other.lo) - 1
        } else {
            self.lo + other.lo
        };
        proof {
            let b = word_base() as int;
            let (h1, h2) = (self.hi as int, other.hi as int);
            lemma_weigh(h1, h2, b);
            lemma_weigh(h1 + h2, 0, b);
            lemma_weigh(b, h1 + h2, b);
            lemma_weigh(b, h1 + h2 + 1, b);
            lemma_weigh(h1 + h2 + 1, b - 1, b);
            lemma_weigh(h1 + h2 + 2, b, b);
            lemma_weigh(b - 1, 0, b);
        }
        if self.hi > u128::MAX - other.hi {
            return None;
        }
        let hi: u128 = self.hi + other.hi;
        if carry {
            if hi == u128::MAX {
                None
            } else {
                Some(U256 { hi: hi + 1, lo })
            }
        } else {
            Some(U256 { hi, lo })
        }
    }

    /// The difference of the two numbers, or `None` where `other` is the
    /// larger.
    pub fn checked_sub(&self, other: &U256) -> (r: Option<U256>)
        ensures
            match r {
                Some(d) => self@ >= other@ && d@ == self@ - other@,
                None => self@ < other@,
            },
    {
        if !other.le(self) {
            return None;
        }
        proof {
            let b = word_base() as int;
            let (h1, h2) = (self.hi as int, other.hi as int);
            lemma_weigh(h1, h2, b);
            lemma_weigh(h1 - h2 - 1, 0, b);
            lemma_weigh(h1 + 1, h2, b);
            lemma_weigh(h1, 0, b);
        }
        if self.lo >= other.lo {
            Some(U256 { hi: self.hi - other.hi, lo: self.lo - other.lo })
        } else {
            Some(U256 { hi: self.hi - other.hi - 1, lo: u128::MAX - other.lo + self.lo + 1 })
        }
    }

    /// The number that `bytes` hold in big-endian order, `None` for more
    /// than 32 bytes.
    pub fn from_be_slice(bytes: &[u8]) -> (r: Option<U256>)
        ensures
            match r {
                Some(x) => bytes@.len() <= 32 && x@ == be_value(bytes@),
                None => bytes@.len() > 32,
            },
    {
        let len: usize = bytes.len();
        if len > 32 {
            return None;
        }
        let split: usize = if len > 16 {
            len - 16
        } else {
            0
        };
        let hi: u128 = be_word(bytes, 0, split);
        let lo: u128 = be_word(bytes, split, len);
        proof {
            let (a, b) = (bytes@.subrange(0, split as int), bytes@.subrange(split as int, len as int));
            assert(bytes@ == a + b);
            lemma_be_value_concat(a, b);
            lemma_pow256(b.len());
            let (x, p) = (be_value(a) as int, pow256(b.len()) as int);
            if split == 0 {
                assert(a == Seq::<u8>::empty());
                assert(x * p == 0) by (nonlinear_arith)
                    requires
                        x == 0,
                ;
            } else {
                assert(x * p == x * word_base()) by (nonlinear_arith)
                    requires
                        p == word_base(),
                ;
            }
        }
        Some(U256 { hi, lo })
    }

    /// The number of which `bytes` is the shortest big-endian
    /// representation; `None` where it is that of no number of 256 bits:
    /// for more than 32 bytes, and for a leading zero byte.
    pub fn from_be_canonical(bytes: &[u8]) -> (r: Option<U256>)
        ensures
            match r {
                Some(x) => bytes@ == be_bytes(x@),
                None => forall|y: U256| bytes@ != #[trigger] be_bytes(y@),
            },
    {
        if bytes.len() > 0 && bytes[0] == 0 {
            proof {
                assert forall|y: U256| bytes@ != #[trigger] be_bytes(y@) by {
                    lemma_be_value_of_bytes(y@);
                }
            }
            return None;
        }
        let r = U256::from_be_slice(bytes);
        proof {
            match r {
                Some(x) => {
                    lemma_be_bytes_of_value(bytes@);
                },
                None => {
                    assert forall|y: U256| bytes@ != #[trigger] be_bytes(y@) by {
                        y.lemma_short();
                    }
                },
            }
        }
        r
    }

    /// The shortest big-endian representation of the number; empty for
    /// zero.
    pub fn to_be_vec(&self) -> (r: Vec<u8>)
        ensures
            r@ == be_bytes(self@),
            r@.len() <= 32,
            be_value(r@) == self@,
            r@.len() > 0 ==> r@[0] != 0,
    {
        let mut out: Vec<u8> = Vec::new();
        proof {
            lemma_pow256(16);
            lemma_be_value_of_bytes(self@);
        }
        if self.hi == 0 {
            push_be(&mut out, self.lo);
            assert(out@ =~= be_bytes(self@));
        } else {
            push_be(&mut out, self.hi);
            push_fixed(&mut out, self.lo, 16);
            proof {
                lemma_be_bytes_split(self.hi as nat, self.lo as nat, 16);
                assert(out@ =~= be_bytes(self@));
            }
        }
        proof {
            self.lemma_short();
        }
        out
    }
}

/// A number below 256 to the power `width` has at most `width` bytes.
pub proof fn lemma_be_bytes_bound(n: nat, width: nat)
    requires
        n < pow256(width),
    ensures
        be_bytes(n).len() <= width,
    decreases n,
{
    if n > 0 {
        assert(width > 0);
        lemma_be_bytes_bound(n / 256, (width - 1) as nat);
    }
}

/// Powers of 256 multiply by adding their exponents.
pub proof fn lemma_pow256_sum(a: nat, b: nat)
    ensures
        pow256(a + b) == pow256(a) * pow256(b),
    decreases b,
{
    if b == 0 {
        assert(pow256(a) * 1 == pow256(a));
    } else {
        lemma_pow256_sum(a, (b - 1) as nat);
        let (x, y) = (pow256(a) as int, pow256((b - 1) as nat) as int);
        assert(256 * (x * y) == x * (256 * y)) by (nonlinear_arith);
    }
}

/// The number that the bytes from `start` up to `end` hold, at most
/// sixteen of them.
fn be_word(bytes: &[u8], start: usize, end: usize) -> (r: u128)
    requires
        start <= end <= bytes.len(),
        end - start <= 16,
    ensures
        r == be_value(bytes@.subrange(start as int, end as int)),
{
    let mut value: u128 = 0;
    let mut i: usize = start;
    assert(bytes@.subrange(start as int, start as int) == Seq::<u8>::empty());
    while i < end
        invariant
            start <= i <= end <= bytes.len(),
            end - start <= 16,
            value == be_value(bytes@.subrange(start as int, i as int)),
        decreases end - i,
    {
        proof {
            let next = bytes@.subrange(start as int, i + 1);
            assert(next.drop_last() == bytes@.subrange(start as int, i as int));
            lemma_be_value_below(next);
            lemma_pow256(next.len());
        }
        value = value * 256 + bytes[i] as u128;
        i += 1;
    }
    value
}

fn push_be(out: &mut Vec<u8>, n: u128)
    ensures
        final(out)@ == old(out)@ + be_bytes(n as nat),
    decreases n,
{
    if n > 0 {
        push_be(out, n / 256);
        out.push((n % 256) as u8);
    }
    assert(out@ =~= old(out)@ + be_bytes(n as nat));
}

fn push_fixed(out: &mut Vec<u8>, n: u128, width: usize)
    ensures
        final(out)@ == old(out)@ + fixed_be(n as nat, width as nat),
    decreases width,
{
    if width > 0 {
        push_fixed(out, n / 256, width - 1);
        out.push((n % 256) as u8);
    }
    assert(out@ =~= old(out)@ + fixed_be(n as nat, width as nat));
}

} // verus!
