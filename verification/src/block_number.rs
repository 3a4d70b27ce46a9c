//! The block that a request names: by number or by its place in the
//! chain.

use crate::hash::H256;
use vstd::prelude::*;
use vstd::std_specs::convert::FromSpecImpl;
use vstd::string::StringSliceAdditionalSpecFns;

verus! {

/// The text `latest`.
pub const LATEST: [u8; 6] = [0x6c, 0x61, 0x74, 0x65, 0x73, 0x74];

/// The text `earliest`.
pub const EARLIEST: [u8; 8] = [0x65, 0x61, 0x72, 0x6c, 0x69, 0x65, 0x73, 0x74];

/// The text `pending`.
pub const PENDING: [u8; 7] = [0x70, 0x65, 0x6e, 0x64, 0x69, 0x6e, 0x67];

/// The number that the character `c` stands for as a digit of the given
/// radix, 10 or 16: `0` to `9`, and for 16 also `a` to `f` in either case.
pub open spec fn digit_of(c: u8, radix: u64) -> Option<nat> {
    if 0x30 <= c <= 0x39 {
        Some((c - 0x30) as nat)
    } else if radix == 16 && 0x61 <= c <= 0x66 {
        Some((c - 0x61 + 10) as nat)
    } else if radix == 16 && 0x41 <= c <= 0x46 {
        Some((c - 0x41 + 10) as nat)
    } else {
        None
    }
}

/// The number that a string of digits stands for, `None` where a character
/// is no digit.
pub open spec fn digits_value(digits: Seq<u8>, radix: u64) -> Option<nat>
    decreases digits.len(),
{
    if digits.len() == 0 {
        Some(0)
    } else {
        match (digits_value(digits.drop_last(), radix), digit_of(digits.last(), radix)) {
            (Some(value), Some(digit)) => Some(value * (radix as nat) + digit),
            _ => None,
        }
    }
}

/// The number that a text stands for: an optional `+`, then at least one
/// digit, and a value that fits 64 bits.
pub open spec fn number_of(text: Seq<u8>, radix: u64) -> Option<u64> {
    let digits = if text.len() > 0 && text[0] == 0x2b {
        text.skip(1)
    } else {
        text
    };
    if digits.len() == 0 {
        None
    } else {
        bounded(digits_value(digits, radix))
    }
}

/// The number as 64 bits, where there is one and it fits.
pub open spec fn bounded(value: Option<nat>) -> Option<u64> {
    match value {
        Some(value) => if value <= u64::MAX {
            Some(value as u64)
        } else {
            None
        },
        None => None,
    }
}

/// The block that a text names: `latest`, `earliest`, `pending`, a
/// hexadecimal number after `0x`, or a decimal number.
pub open spec fn block_number_of(text: Seq<u8>) -> Option<BlockNumber> {
    if text == LATEST@ {
        Some(BlockNumber::Latest)
    } else if text == EARLIEST@ {
        Some(BlockNumber::Earliest)
    } else if text == PENDING@ {
        Some(BlockNumber::Pending)
    } else if text.len() >= 2 && text[0] == 0x30 && text[1] == 0x78 {
        match number_of(text.skip(2), 16) {
            Some(n) => Some(BlockNumber::Num(n)),
            None => None,
        }
    } else {
        match number_of(text, 10) {
            Some(n) => Some(BlockNumber::Num(n)),
            None => None,
        }
    }
}

/// A string of digits has a value only if each of its beginnings has one,
/// and that value is no larger.
pub proof fn lemma_digits_prefix(digits: Seq<u8>, radix: u64, n: int)
    requires
        0 <= n <= digits.len(),
        radix >= 1,
        digits_value(digits, radix) is Some,
    ensures
        digits_value(digits.take(n), radix) is Some,
        digits_value(digits.take(n), radix).unwrap() <= digits_value(digits, radix).unwrap(),
    decreases digits.len(),
{
    if n == digits.len() {
        assert(digits.take(n) == digits);
    } else {
        assert(digits.drop_last().take(n) == digits.take(n));
        lemma_digits_prefix(digits.drop_last(), radix, n);
        let before = digits_value(digits.drop_last(), radix).unwrap();
        assert(before <= before * radix + digit_of(digits.last(), radix).unwrap())
            by (nonlinear_arith)
            requires
                radix >= 1,
                before >= 0,
                digit_of(digits.last(), radix).unwrap() >= 0,
        ;
    }
}

/// The lowercase hexadecimal digit for a number below 16.
pub open spec fn hex_char(d: nat) -> u8 {
    if d < 10 {
        (0x30 + d) as u8
    } else {
        (0x61 + d - 10) as u8
    }
}

/// The lowercase hexadecimal digits of `n`, without leading zeros; `0` for
/// zero.
pub open spec fn hex_digits(n: nat) -> Seq<u8>
    decreases n,
{
    if n < 16 {
        seq![hex_char(n)]
    } else {
        hex_digits(n / 16).push(hex_char(n % 16))
    }
}

/// The text that names a block: `latest`, `earliest`, `pending`, or the
/// hexadecimal digits of the number after `0x`.
pub open spec fn text_of(number: BlockNumber) -> Seq<u8> {
    match number {
        BlockNumber::Num(n) => seq![0x30u8, 0x78u8] + hex_digits(n as nat),
        BlockNumber::Latest => LATEST@,
        BlockNumber::Earliest => EARLIEST@,
        BlockNumber::Pending => PENDING@,
    }
}

/// The hexadecimal digits of a number stand for the number.
pub proof fn lemma_hex_digits_value(n: nat)
    ensures
        digits_value(hex_digits(n), 16) == Some(n),
        hex_digits(n).len() > 0,
        hex_digits(n)[0] != 0x2b,
    decreases n,
{
    if n < 16 {
        assert(hex_digits(n).drop_last() == Seq::<u8>::empty());
        assert(digits_value(Seq::<u8>::empty(), 16) == Some(0nat));
    } else {
        lemma_hex_digits_value(n / 16);
        assert(hex_digits(n).drop_last() == hex_digits(n / 16));
        assert(hex_digits(n)[0] == hex_digits(n / 16)[0]);
    }
}

/// Reading the text of a block gives the block.
pub proof fn lemma_text_round_trip(number: BlockNumber)
    ensures
        block_number_of(text_of(number)) == Some(number),
{
    match number {
        BlockNumber::Num(n) => {
            let text = text_of(number);
            lemma_hex_digits_value(n as nat);
            assert(text.skip(2) == hex_digits(n as nat));
            assert(text[0] == 0x30 && text[1] == 0x78);
            assert(LATEST@[0] == 0x6c);
            assert(EARLIEST@[0] == 0x65);
            assert(PENDING@[0] == 0x70);
        },
        BlockNumber::Latest => {},
        BlockNumber::Earliest => {
            assert(EARLIEST@.len() != LATEST@.len());
        },
        BlockNumber::Pending => {
            assert(PENDING@.len() != LATEST@.len());
            assert(PENDING@.len() != EARLIEST@.len());
        },
    }
}

fn push_hex(out: &mut Vec<u8>, n: u64)
    ensures
        final(out)@ == old(out)@ + hex_digits(n as nat),
    decreases n,
{
    if n >= 16 {
        push_hex(out, n / 16);
    }
    let d: u8 = (n % 16) as u8;
    let c: u8 = if d < 10 {
        0x30 + d
    } else {
        0x61 + d - 10
    };
    out.push(c);
    assert(out@ =~= old(out)@ + hex_digits(n as nat));
}

fn push_text(out: &mut Vec<u8>, text: &[u8])
    ensures
        final(out)@ == old(out)@ + text@,
{
    let mut i: usize = 0;
    while i < text.len()
        invariant
            i <= text.len(),
            out@ == old(out)@ + text@.take(i as int),
        decreases text.len() - i,
    {
        out.push(text[i]);
        assert(text@.take(i + 1) == text@.take(i as int).push(text@[i as int]));
        i += 1;
    }
    assert(text@.take(text.len() as int) == text@);
}

fn same_text(a: &[u8], b: &[u8]) -> (r: bool)
    ensures
        r == (a@ == b@),
{
    if a.len() != b.len() {
        return false;
    }
    let mut i: usize = 0;
    while i < a.len()
        invariant
            i <= a.len(),
            a.len() == b.len(),
            forall|j: int| 0 <= j < i ==> a@[j] == b@[j],
        decreases a.len() - i,
    {
        if a[i] != b[i] {
            return false;
        }
        i += 1;
    }
    assert(a@ =~= b@);
    true
}

fn digit(c: u8, radix: u64) -> (r: Option<u64>)
    requires
        radix == 10 || radix == 16,
    ensures
        match r {
            Some(d) => digit_of(c, radix) == Some(d as nat) && d < radix,
            None => digit_of(c, radix) is None,
        },
{
    if 0x30 <= c && c <= 0x39 {
        Some((c - 0x30) as u64)
    } else if radix == 16 && 0x61 <= c && c <= 0x66 {
        Some((c - 0x61 + 10) as u64)
    } else if radix == 16 && 0x41 <= c && c <= 0x46 {
        Some((c - 0x41 + 10) as u64)
    } else {
        None
    }
}

/// The number that the text from index `start` on stands for in the given
/// radix, 10 or 16.
fn parse_number(text: &[u8], start: usize, radix: u64) -> (r: Option<u64>)
    requires
        start <= text.len(),
        radix == 10 || radix == 16,
    ensures
        r == number_of(text@.skip(start as int), radix),
{
    let ghost whole = text@.skip(start as int);
    let first: usize = if start < text.len() && text[start] == 0x2b {
        start + 1
    } else {
        start
    };
    let ghost digits = text@.skip(first as int);
    assert(digits == if whole.len() > 0 && whole[0] == 0x2b {
        whole.skip(1)
    } else {
        whole
    });
    if first == text.len() {
        return None;
    }
    let mut value: u64 = 0;
    let mut i: usize = first;
    assert(digits.take(0) == Seq::<u8>::empty());
    while i < text.len()
        invariant
            first <= i <= text.len(),
            radix == 10 || radix == 16,
            digits == text@.skip(first as int),
            whole == text@.skip(start as int),
            number_of(whole, radix) == bounded(digits_value(digits, radix)),
            digits_value(digits.take(i - first), radix) == Some(value as nat),
        decreases text.len() - i,
    {
        let ghost next = digits.take(i - first + 1);
        assert(next.drop_last() == digits.take(i - first));
        assert(next.last() == text@[i as int]);
        let d = match digit(text[i], radix) {
            Some(d) => d,
            None => {
                proof {
                    if digits_value(digits, radix) is Some {
                        lemma_digits_prefix(digits, radix, i - first + 1);
                    }
                }
                return None;
            },
        };
        if value > (u64::MAX - d) / radix {
            proof {
                assert(value * radix + d > u64::MAX) by (nonlinear_arith)
                    requires
                        value as int > (u64::MAX - d) / (radix as int),
                        radix >= 1,
                        d <= u64::MAX,
                ;
                if digits_value(digits, radix) is Some {
                    lemma_digits_prefix(digits, radix, i - first + 1);
                }
            }
            return None;
        }
        assert(value * radix + d <= u64::MAX) by (nonlinear_arith)
            requires
                value as int <= (u64::MAX - d) / (radix as int),
                radix >= 1,
                d <= u64::MAX,
        ;
        value = value * radix + d;
        i += 1;
    }
    assert(digits.take(text.len() - first) == digits);
    Some(value)
}

/// A block as a request names it.
#[derive(Debug, PartialEq, Eq, Clone, Copy, Hash)]
pub enum BlockNumber {
    /// Number
    Num(u64),
    /// Latest block
    Latest,
    /// Earliest block (genesis)
    Earliest,
    /// Pending block (being mined)
    Pending,
}

/// A block as the chain looks it up.
#[derive(Debug, PartialEq, Eq, Clone, Copy)]
pub enum BlockId {
    /// The block with this hash.
    Hash(H256),
    /// The block with this number.
    Number(u64),
    /// The genesis block.
    Earliest,
    /// The newest block of the chain.
    Latest,
    /// The block that is being made.
    Pending,
}

impl Default for BlockNumber {
    fn default() -> (r: BlockNumber)
        ensures
            r == BlockNumber::Latest,
    {
        BlockNumber::Latest
    }
}

impl BlockNumber {
    /// Convert block number to min block target.
    pub fn to_min_block_num(&self) -> (r: Option<u64>)
        ensures
            r == match *self {
                BlockNumber::Num(x) => Some(x),
                _ => None,
            },
    {
        match *self {
            BlockNumber::Num(x) => Some(x),
            _ => None,
        }
    }
}

impl BlockNumber {
    /// The block that `value` names: `latest`, `earliest`, `pending`, a
    /// hexadecimal number after `0x`, or a decimal number; `None` for
    /// any other text and for a number that does not fit 64 bits.
    pub fn from_text(value: &str) -> (r: Option<BlockNumber>)
        ensures
            r == block_number_of(value.spec_bytes()),
    {
        let text = value.as_bytes();
        if same_text(text, LATEST.as_slice()) {
            Some(BlockNumber::Latest)
        } else if same_text(text, EARLIEST.as_slice()) {
            Some(BlockNumber::Earliest)
        } else if same_text(text, PENDING.as_slice()) {
            Some(BlockNumber::Pending)
        } else if text.len() >= 2 && text[0] == 0x30 && text[1] == 0x78 {
            match parse_number(text, 2, 16) {
                Some(n) => Some(BlockNumber::Num(n)),
                None => None,
            }
        } else {
            assert(text@.skip(0) == text@);
            match parse_number(text, 0, 10) {
                Some(n) => Some(BlockNumber::Num(n)),
                None => None,
            }
        }
    }
}

impl BlockNumber {
    /// The text that names the block, in ASCII: `latest`, `earliest`,
    /// `pending`, or the number in hexadecimal digits after `0x`. Reading
    /// it with `from_text` gives the block back.
    pub fn to_text(&self) -> (r: Vec<u8>)
        ensures
            r@ == text_of(*self),
            block_number_of(r@) == Some(*self),
    {
        proof {
            lemma_text_round_trip(*self);
        }
        let mut out: Vec<u8> = Vec::new();
        match *self {
            BlockNumber::Num(n) => {
                out.push(0x30);
                out.push(0x78);
                push_hex(&mut out, n);
            },
            BlockNumber::Latest => {
                push_text(&mut out, LATEST.as_slice());
            },
            BlockNumber::Earliest => {
                push_text(&mut out, EARLIEST.as_slice());
            },
            BlockNumber::Pending => {
                push_text(&mut out, PENDING.as_slice());
            },
        }
        assert(out@ =~= text_of(*self));
        out
    }
}

impl From<BlockNumber> for BlockId {
    fn from(number: BlockNumber) -> (r: BlockId) {
        match number {
            BlockNumber::Num(n) => BlockId::Number(n),
            BlockNumber::Earliest => BlockId::Earliest,
            BlockNumber::Latest => BlockId::Latest,
            BlockNumber::Pending => BlockId::Pending,
        }
    }
}

impl FromSpecImpl<BlockNumber> for BlockId {
    open spec fn obeys_from_spec() -> bool {
        true
    }

    open spec fn from_spec(number: BlockNumber) -> BlockId {
        match number {
            BlockNumber::Num(n) => BlockId::Number(n),
            BlockNumber::Earliest => BlockId::Earliest,
            BlockNumber::Latest => BlockId::Latest,
            BlockNumber::Pending => BlockId::Pending,
        }
    }
}

} // verus!
