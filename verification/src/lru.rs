//! The bounded least-recently-used memo of storage reads, and the model of
//! key/value sequences that the account's contracts are stated over.

use crate::bytes::bytes_view;
use lru_cache::LruCache;
use std::hash::BuildHasher;
use std::hash::Hash;
use vstd::prelude::*;

verus! {

/// Key/value pairs in order: for the memo from the least to the most
/// recently used, for staged writes from the first to the last staged.
pub type Entries = Seq<(Seq<u8>, Seq<u8>)>;

/// The value that `entries` holds for `key`: that of the last pair with this
/// key.
pub open spec fn lookup(entries: Entries, key: Seq<u8>) -> Option<Seq<u8>>
    decreases entries.len(),
{
    if entries.len() == 0 {
        None
    } else if entries.last().0 == key {
        Some(entries.last().1)
    } else {
        lookup(entries.drop_last(), key)
    }
}

/// `entries` with every pair for `key` taken out.
pub open spec fn without(entries: Entries, key: Seq<u8>) -> Entries {
    entries.filter(|e: (Seq<u8>, Seq<u8>)| e.0 != key)
}

/// `entries` after a read of `key`: a pair that is present becomes the most
/// recently used one.
pub open spec fn touched(entries: Entries, key: Seq<u8>) -> Entries {
    match lookup(entries, key) {
        Some(value) => without(entries, key).push((key, value)),
        None => entries,
    }
}

/// `entries` after `key` is set to `value` in a memo that holds at most
/// `limit` pairs: the pair becomes the most recently used one, and where
/// that makes one pair too many, the least recently used one leaves.
pub open spec fn inserted(entries: Entries, limit: nat, key: Seq<u8>, value: Seq<u8>) -> Entries {
    let all = without(entries, key).push((key, value));
    if all.len() > limit {
        all.drop_first()
    } else {
        all
    }
}

/// No key occurs twice in `entries`.
pub open spec fn distinct_keys(entries: Entries) -> bool {
    forall|i: int, j: int| 0 <= i < j < entries.len() ==> entries[i].0 != entries[j].0
}

/// `lru_cache::LruCache`, a map that holds a limited number of pairs and
/// drops the least recently used one to make room. Its inside is not looked
/// at: what it holds is known through [`lru_entries`] and [`lru_limit`].
#[verifier::external_type_specification]
#[verifier::external_body]
#[verifier::reject_recursive_types(K)]
#[verifier::reject_recursive_types(V)]
#[verifier::reject_recursive_types(S)]
pub struct ExLruCache<K: Eq + Hash, V, S: BuildHasher>(LruCache<K, V, S>);

/// The pairs that the memo holds, from the least to the most recently used.
pub uninterp spec fn lru_entries(cache: LruCache<Vec<u8>, Vec<u8>>) -> Entries;

/// The number of pairs that the memo was made to hold at most.
pub uninterp spec fn lru_limit(cache: LruCache<Vec<u8>, Vec<u8>>) -> nat;

/// Calls `LruCache::new`, which makes an empty memo and keeps `limit` as its
/// capacity.
#[verifier::external_body]
pub(crate) fn lru_new(limit: usize) -> (cache: LruCache<Vec<u8>, Vec<u8>>)
    ensures
        lru_entries(cache) == Seq::<(Seq<u8>, Seq<u8>)>::empty(),
        lru_limit(cache) == limit,
{
    LruCache::new(limit)
}

/// Calls `LruCache::insert`. The outside crate replaces the value of a key
/// that is present, or adds the pair; either way the pair moves to the most
/// recently used end; then, if the memo holds more pairs than its capacity,
/// it drops the least recently used one. It hands back the value that the
/// key had before.
#[verifier::external_body]
pub(crate) fn lru_insert(
    cache: &mut LruCache<Vec<u8>, Vec<u8>>,
    key: Vec<u8>,
    value: Vec<u8>,
) -> (previous: Option<Vec<u8>>)
    ensures
        lru_entries(*final(cache)) == inserted(
            lru_entries(*old(cache)),
            lru_limit(*old(cache)),
            key@,
            value@,
        ),
        lru_limit(*final(cache)) == lru_limit(*old(cache)),
        bytes_view(previous) == lookup(lru_entries(*old(cache)), key@),
{
    cache.insert(key, value)
}

/// Calls `LruCache::get_mut` and copies the value out. The outside crate
/// moves a pair that it finds to the most recently used end, and changes
/// nothing where the key is absent.
#[verifier::external_body]
pub(crate) fn lru_get(cache: &mut LruCache<Vec<u8>, Vec<u8>>, key: &Vec<u8>) -> (value: Option<
    Vec<u8>,
>)
    ensures
        lru_entries(*final(cache)) == touched(lru_entries(*old(cache)), key@),
        lru_limit(*final(cache)) == lru_limit(*old(cache)),
        bytes_view(value) == lookup(lru_entries(*old(cache)), key@),
{
    cache.get_mut(key).cloned()
}

/// Calls `LruCache::clone`, which copies the pairs in their order and keeps
/// the capacity.
#[verifier::external_body]
pub(crate) fn lru_clone(cache: &LruCache<Vec<u8>, Vec<u8>>) -> (copy: LruCache<Vec<u8>, Vec<u8>>)
    ensures
        lru_entries(copy) == lru_entries(*cache),
        lru_limit(copy) == lru_limit(*cache),
{
    cache.clone()
}

/// A pair that is pushed is found under its key, and hides nothing else.
pub proof fn lemma_lookup_push(entries: Entries, key: Seq<u8>, value: Seq<u8>, other: Seq<u8>)
    ensures
        lookup(entries.push((key, value)), other) == if other == key {
            Some(value)
        } else {
            lookup(entries, other)
        },
{
    assert(entries.push((key, value)).drop_last() == entries);
}

/// Taking a key out leaves the other keys as they were.
pub proof fn lemma_lookup_without(entries: Entries, key: Seq<u8>, other: Seq<u8>)
    ensures
        lookup(without(entries, key), other) == if other == key {
            None
        } else {
            lookup(entries, other)
        },
    decreases entries.len(),
{
    reveal(Seq::filter);
    if entries.len() > 0 {
        let rest = entries.drop_last();
        lemma_lookup_without(rest, key, other);
        if entries.last().0 != key {
            lemma_lookup_push(without(rest, key), entries.last().0, entries.last().1, other);
        }
    }
}

/// Dropping the first pair loses at most what was found before.
pub proof fn lemma_lookup_drop_first(entries: Entries, other: Seq<u8>)
    requires
        entries.len() > 0,
    ensures
        lookup(entries.drop_first(), other) is None || lookup(entries.drop_first(), other)
            == lookup(entries, other),
    decreases entries.len(),
{
    if entries.len() > 1 {
        let rest = entries.drop_last();
        assert(entries.drop_first().drop_last() == rest.drop_first());
        assert(entries.drop_first().last() == entries.last());
        lemma_lookup_drop_first(rest, other);
    }
}

/// After an insertion the key that was set holds the new value or has left
/// the memo, and every other key holds what it held or has left.
pub proof fn lemma_lookup_inserted(
    entries: Entries,
    limit: nat,
    key: Seq<u8>,
    value: Seq<u8>,
    other: Seq<u8>,
)
    ensures
        lookup(inserted(entries, limit, key, value), other) is None || lookup(
            inserted(entries, limit, key, value),
            other,
        ) == if other == key {
            Some(value)
        } else {
            lookup(entries, other)
        },
        limit > 0 ==> lookup(inserted(entries, limit, key, value), key) == Some(value),
{
    let all = without(entries, key).push((key, value));
    lemma_lookup_without(entries, key, other);
    lemma_lookup_push(without(entries, key), key, value, other);
    lemma_lookup_push(without(entries, key), key, value, key);
    lemma_lookup_drop_first(all, other);
    if all.len() > limit && limit > 0 {
        assert(all.drop_first().last() == all.last());
    }
}

/// A read keeps what every key holds.
pub proof fn lemma_lookup_touched(entries: Entries, key: Seq<u8>, other: Seq<u8>)
    ensures
        lookup(touched(entries, key), other) == lookup(entries, other),
{
    match lookup(entries, key) {
        Some(value) => {
            lemma_lookup_without(entries, key, other);
            lemma_lookup_push(without(entries, key), key, value, other);
        },
        None => {},
    }
}

} // verus!
