//! The canonical encoding of one storage value as it is written into the
//! trie: a byte string framed by a length prefix.

use crate::bytes::bytes_view;
use vstd::prelude::*;

verus! {

/// The shortest big-endian representation of `n`; empty for zero.
pub open spec fn be_bytes(n: nat) -> Seq<u8>
    decreases n,
{
    if n == 0 {
        Seq::empty()
    } else {
        be_bytes(n / 256).push((n % 256) as u8)
    }
}

/// The number that `s` holds in big-endian order.
pub open spec fn be_value(s: Seq<u8>) -> nat
    decreases s.len(),
{
    if s.len() == 0 {
        0
    } else {
        be_value(s.drop_last()) * 256 + s.last() as nat
    }
}

/// The encoding of the byte string `v`:
/// a single byte below `0x80` stands for itself; a string of up to 55 bytes
/// follows the byte `0x80 + length`; a longer one follows the byte
/// `0xb7 + k` and the `k` bytes of its length.
pub open spec fn rlp_bytes(v: Seq<u8>) -> Seq<u8> {
    if v.len() == 1 && v[0] < 0x80 {
        v
    } else if v.len() <= 55 {
        seq![(0x80 + v.len()) as u8] + v
    } else {
        let len = be_bytes(v.len());
        seq![(0xb7 + len.len()) as u8] + len + v
    }
}

/// The byte string that `raw` encodes, if `raw` is the encoding of one of at
/// most `u32::MAX` bytes.
pub open spec fn rlp_item_value(raw: Seq<u8>) -> Option<Seq<u8>> {
    if raw.len() == 0 {
        None
    } else if raw[0] < 0x80 {
        if raw.len() == 1 {
            Some(raw)
        } else {
            None
        }
    } else if raw[0] <= 0xb7 {
        let body = raw.skip(1);
        if body.len() != raw[0] - 0x80 || (body.len() == 1 && body[0] < 0x80) {
            None
        } else {
            Some(body)
        }
    } else if raw[0] <= 0xbb {
        let k = raw[0] - 0xb7;
        if raw.len() < 1 + k {
            None
        } else {
            let len = be_value(raw.subrange(1, 1 + k));
            let body = raw.skip(1 + k);
            if raw[1] == 0 || len <= 55 || body.len() != len {
                None
            } else {
                Some(body)
            }
        }
    } else {
        None
    }
}

/// Reading a number back from its shortest representation gives the number.
pub proof fn lemma_be_value_of_bytes(n: nat)
    ensures
        be_value(be_bytes(n)) == n,
        n > 0 ==> be_bytes(n).len() > 0 && be_bytes(n)[0] != 0,
    decreases n,
{
    if n > 0 {
        lemma_be_value_of_bytes(n / 256);
        let s = be_bytes(n);
        assert(s.drop_last() == be_bytes(n / 256));
        if n / 256 > 0 {
            assert(s[0] == be_bytes(n / 256)[0]);
        }
    }
}

/// A representation without a leading zero is the shortest one of its
/// number.
pub proof fn lemma_be_bytes_of_value(s: Seq<u8>)
    requires
        s.len() > 0 ==> s[0] != 0,
    ensures
        be_bytes(be_value(s)) == s,
        s.len() > 0 ==> be_value(s) > 0,
    decreases s.len(),
{
    if s.len() > 0 {
        let t = s.drop_last();
        if t.len() > 0 {
            assert(t[0] == s[0]);
        }
        lemma_be_bytes_of_value(t);
        let n = be_value(s);
        assert(n == be_value(t) * 256 + s.last() as nat);
        assert(n / 256 == be_value(t));
        assert(n % 256 == s.last() as nat);
        assert(be_bytes(n) == t.push(s.last()));
        assert(t.push(s.last()) == s);
    }
}

/// The shortest representation of a number below `2^32` has at most four
/// bytes.
pub proof fn lemma_be_bytes_len(n: nat)
    requires
        n <= u32::MAX,
    ensures
        be_bytes(n).len() <= 4,
{
    reveal_with_fuel(be_bytes, 6);
}

/// Four bytes hold a number below `2^32`.
pub proof fn lemma_be_value_bound(s: Seq<u8>)
    requires
        s.len() <= 4,
    ensures
        be_value(s) <= u32::MAX,
{
    reveal_with_fuel(be_value, 6);
}

/// Decoding undoes encoding.
pub proof fn lemma_decode_encode(v: Seq<u8>)
    requires
        v.len() <= u32::MAX,
    ensures
        rlp_item_value(rlp_bytes(v)) == Some(v),
{
    let raw = rlp_bytes(v);
    if v.len() == 1 && v[0] < 0x80 {
    } else if v.len() <= 55 {
        assert(raw.skip(1) == v);
    } else {
        let len = be_bytes(v.len());
        lemma_be_bytes_len(v.len());
        lemma_be_value_of_bytes(v.len());
        let k = len.len() as int;
        assert(raw.subrange(1, 1 + k) == len);
        assert(raw.skip(1 + k) == v);
        assert(raw[1] == len[0]);
    }
}

/// Only the encoding of a byte string decodes to it: no two inputs decode to
/// the same value.
pub proof fn lemma_decode_canonical(raw: Seq<u8>)
    requires
        rlp_item_value(raw) is Some,
    ensures
        raw == rlp_bytes(rlp_item_value(raw).unwrap()),
        rlp_item_value(raw).unwrap().len() <= u32::MAX,
{
    let v = rlp_item_value(raw).unwrap();
    if raw[0] < 0x80 {
    } else if raw[0] <= 0xb7 {
        assert(raw == seq![raw[0]] + raw.skip(1));
    } else {
        let k = (raw[0] - 0xb7) as int;
        let len = raw.subrange(1, 1 + k);
        assert(len[0] == raw[1]);
        lemma_be_bytes_of_value(len);
        lemma_be_value_bound(len);
        assert(raw == seq![raw[0]] + len + raw.skip(1 + k));
    }
}

/// Calls `rlp::encode` on the byte vector and copies the bytes out. For an
/// input of at most `u32::MAX` bytes the outside crate writes the framing
/// that [`rlp_bytes`] states; it keeps a longer length in 32 bits, so such
/// an input is left out.
#[verifier::external_body]
fn rlp_encode(value: &Vec<u8>) -> (out: Vec<u8>)
    requires
        value@.len() <= u32::MAX,
    ensures
        out@ == rlp_bytes(value@),
{
    rlp::encode(value).to_vec()
}

/// The encoding of `value`, or `None` where its length does not fit the 32
/// bits that the encoder keeps for it.
pub fn encode_item(value: &Vec<u8>) -> (r: Option<Vec<u8>>)
    ensures
        value@.len() <= u32::MAX ==> r is Some && r.unwrap()@ == rlp_bytes(value@),
        value@.len() > u32::MAX ==> r is None,
{
    if value.len() > 0xffff_ffff {
        None
    } else {
        Some(rlp_encode(value))
    }
}

/// The byte string of which `raw` is the encoding, or `None` where `raw`
/// is the encoding of none of at most `u32::MAX` bytes.
pub fn decode_item(raw: &[u8]) -> (r: Option<Vec<u8>>)
    ensures
        bytes_view(r) == rlp_item_value(raw@),
        match r {
            Some(v) => raw@ == rlp_bytes(v@),
            None => forall|v: Seq<u8>| v.len() <= u32::MAX ==> raw@ != #[trigger] rlp_bytes(v),
        },
{
    proof {
        if rlp_item_value(raw@) is Some {
            lemma_decode_canonical(raw@);
        } else {
            assert forall|v: Seq<u8>| v.len() <= u32::MAX implies raw@ != #[trigger] rlp_bytes(
                v,
            ) by {
                lemma_decode_encode(v);
            }
        }
    }
    decode_item_of(raw)
}

fn decode_item_of(raw: &[u8]) -> (r: Option<Vec<u8>>)
    ensures
        match r {
            Some(v) => rlp_item_value(raw@) == Some(v@),
            None => rlp_item_value(raw@) is None,
        },
{
    if raw.len() == 0 {
        return None;
    }
    let first: u8 = raw[0];
    if first < 0x80 {
        if raw.len() == 1 {
            let out = copy_from(raw, 0);
            assert(raw@.skip(0) == raw@);
            Some(out)
        } else {
            None
        }
    } else if first <= 0xb7 {
        let n: usize = (first - 0x80) as usize;
        if raw.len() - 1 != n || (n == 1 && raw[1] < 0x80) {
            None
        } else {
            Some(copy_from(raw, 1))
        }
    } else if first <= 0xbb {
        let k: usize = (first - 0xb7) as usize;
        if raw.len() < 1 + k || raw[1] == 0 {
            return None;
        }
        let mut len: u64 = 0;
        let mut i: usize = 0;
        while i < k
            invariant
                i <= k <= 4,
                1 + k <= raw.len(),
                len == be_value(raw@.subrange(1, 1 + i)),
                len <= u32::MAX,
            decreases k - i,
        {
            proof {
                let next = raw@.subrange(1, 2 + i);
                assert(next.drop_last() == raw@.subrange(1, 1 + i));
                lemma_be_value_bound(next);
            }
            len = len * 256 + raw[1 + i] as u64;
            i += 1;
        }
        if len <= 55 || (raw.len() - 1 - k) as u64 != len {
            None
        } else {
            Some(copy_from(raw, 1 + k))
        }
    } else {
        None
    }
}

/// The bytes of `raw` from index `start` on.
fn copy_from(raw: &[u8], start: usize) -> (out: Vec<u8>)
    requires
        start <= raw.len(),
    ensures
        out@ == raw@.skip(start as int),
{
    let mut out: Vec<u8> = Vec::new();
    let mut i: usize = start;
    while i < raw.len()
        invariant
            start <= i <= raw.len(),
            out@ == raw@.subrange(start as int, i as int),
        decreases raw.len() - i,
    {
        out.push(raw[i]);
        assert(raw@.subrange(start as int, i + 1) == raw@.subrange(start as int, i as int).push(
            raw@[i as int],
        ));
        i += 1;
    }
    assert(raw@.subrange(start as int, raw.len() as int) == raw@.skip(start as int));
    out
}

} // verus!
