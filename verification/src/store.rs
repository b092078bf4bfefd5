//! The bounded cache that every component keeps its entries in: keys are
//! byte strings, and what is used last is dropped last.
//!
//! Every cache of the multiplexer is of this one type, whatever it keeps: a
//! `lru::LruCache` from byte strings to records. So what that crate does is
//! assumed once, in five contracts over the entries in order of use, the most
//! recently used first; everything else in this module is proved from them.

use crate::hash::PayloadId;
use crate::payload::{
    ExecutionPayload, ExecutionPayloadView, NewPayloadCacheEntry, PayloadInfo, PayloadStatus,
};
use lru::LruCache;
use vstd::prelude::*;

verus! {

/// `lru::LruCache`. Nothing inside it is seen here: what it holds is named
/// by `lru_entries`, and what it was made to hold by `lru_capacity`.
#[verifier::external_type_specification]
#[verifier::external_body]
#[verifier::reject_recursive_types(K)]
#[verifier::reject_recursive_types(V)]
#[verifier::reject_recursive_types(S)]
pub struct ExLruCache<K, V, S>(LruCache<K, V, S>);

/// `lru::DefaultHasher`, the hasher of an `LruCache` that is made with `new`.
#[verifier::external_type_specification]
#[verifier::external_body]
pub struct ExDefaultHasher(lru::DefaultHasher);

/// What a cache keeps under a key. Each cache of the multiplexer keeps one kind.
#[derive(Debug)]
pub enum Record {
    /// The key alone: a member of a set of block hashes.
    Seen,
    /// The status of a fork choice.
    Status(PayloadStatus),
    /// The status and number of a block.
    NewPayload(NewPayloadCacheEntry),
    /// The id given to a parent block and payload attributes.
    PayloadId(PayloadId),
    /// What is remembered of a canonical block.
    Info(PayloadInfo),
    /// A payload that was built.
    Payload(ExecutionPayload),
}

/// A record, with the view of a payload in place of the payload.
pub enum RecordView {
    Seen,
    Status(PayloadStatus),
    NewPayload(NewPayloadCacheEntry),
    PayloadId(PayloadId),
    Info(PayloadInfo),
    Payload(ExecutionPayloadView),
}

impl View for Record {
    type V = RecordView;

    open spec fn view(&self) -> RecordView {
        match self {
            Record::Seen => RecordView::Seen,
            Record::Status(s) => RecordView::Status(*s),
            Record::NewPayload(e) => RecordView::NewPayload(*e),
            Record::PayloadId(id) => RecordView::PayloadId(*id),
            Record::Info(info) => RecordView::Info(*info),
            Record::Payload(p) => RecordView::Payload(p@),
        }
    }
}

/// The entries of a cache, the most recently used first.
pub type Entries = Seq<(Seq<u8>, RecordView)>;

/// The entry at `i` is that of `key`.
pub open spec fn holds_at(entries: Entries, key: Seq<u8>, i: int) -> bool {
    0 <= i < entries.len() && entries[i].0 == key
}

/// The entries hold `key`.
pub open spec fn has_key(entries: Entries, key: Seq<u8>) -> bool {
    exists|i: int| holds_at(entries, key, i)
}

/// The place of a key that the entries hold.
pub open spec fn position(entries: Entries, key: Seq<u8>) -> int {
    choose|i: int| holds_at(entries, key, i)
}

/// What the entries hold under a key.
pub open spec fn lookup(entries: Entries, key: Seq<u8>) -> Option<RecordView> {
    if has_key(entries, key) {
        Some(entries[position(entries, key)].1)
    } else {
        None
    }
}

/// No key occurs twice.
pub open spec fn distinct_keys(entries: Entries) -> bool {
    forall|i: int, j: int|
        0 <= i < j < entries.len() ==> (#[trigger] entries[i]).0 != (#[trigger] entries[j]).0
}

/// The entries after a use of `key`: its entry, if there is one, has moved to the front.
pub open spec fn touched(entries: Entries, key: Seq<u8>) -> Entries {
    if has_key(entries, key) {
        seq![entries[position(entries, key)]] + entries.remove(position(entries, key))
    } else {
        entries
    }
}

/// The entries after `value` was put under `key`: the new entry is at the front;
/// an old entry of the key is gone; if there was none and the cache was full,
/// the entry used least recently is gone.
pub open spec fn stored(entries: Entries, capacity: nat, key: Seq<u8>, value: RecordView) -> Entries {
    if has_key(entries, key) {
        seq![(key, value)] + entries.remove(position(entries, key))
    } else if entries.len() >= capacity {
        seq![(key, value)] + entries.drop_last()
    } else {
        seq![(key, value)] + entries
    }
}

/// What an `LruCache` holds, the most recently used entry first.
pub uninterp spec fn lru_entries(cache: LruCache<Vec<u8>, Record>) -> Seq<(Seq<u8>, RecordView)>;

/// The number of entries that an `LruCache` was made to hold.
pub uninterp spec fn lru_capacity(cache: LruCache<Vec<u8>, Record>) -> nat;

/// `LruCache::new`: an empty cache of the given capacity.
#[verifier::external_body]
fn lru_new(capacity: usize) -> (cache: LruCache<Vec<u8>, Record>)
    requires
        capacity > 0,
    ensures
        lru_entries(cache) == Seq::<(Seq<u8>, RecordView)>::empty(),
        lru_capacity(cache) == capacity,
{
    LruCache::new(std::num::NonZeroUsize::new(capacity).unwrap())
}

/// `LruCache::get`: what is held under the key, which thereby becomes the most
/// recently used; nothing else changes.
#[verifier::external_body]
fn lru_get<'a>(cache: &'a mut LruCache<Vec<u8>, Record>, key: &Vec<u8>) -> (found: Option<
    &'a Record,
>)
    ensures
        lru_entries(*final(cache)) == touched(lru_entries(*old(cache)), key@),
        lru_capacity(*final(cache)) == lru_capacity(*old(cache)),
        match found {
            Some(record) => lookup(lru_entries(*old(cache)), key@) == Some(record@),
            None => !has_key(lru_entries(*old(cache)), key@),
        },
{
    cache.get(key)
}

/// `LruCache::put`: the value is held under the key, as the most recently used
/// entry; what the key held before is returned; where the key is new and the
/// cache is full, the least recently used entry is dropped.
#[verifier::external_body]
fn lru_put(cache: &mut LruCache<Vec<u8>, Record>, key: Vec<u8>, value: Record) -> (previous:
    Option<Record>)
    ensures
        lru_entries(*final(cache)) == stored(
            lru_entries(*old(cache)),
            lru_capacity(*old(cache)),
            key@,
            value@,
        ),
        lru_capacity(*final(cache)) == lru_capacity(*old(cache)),
        match previous {
            Some(record) => lookup(lru_entries(*old(cache)), key@) == Some(record@),
            None => !has_key(lru_entries(*old(cache)), key@),
        },
{
    cache.put(key, value)
}

/// `LruCache::contains`: whether the key is held; the order of use stays.
#[verifier::external_body]
fn lru_contains(cache: &LruCache<Vec<u8>, Record>, key: &Vec<u8>) -> (found: bool)
    ensures
        found == has_key(lru_entries(*cache), key@),
{
    cache.contains(key)
}

/// `LruCache::iter`: the entries, the most recently used first; the order of use stays.
#[verifier::external_body]
fn lru_iter<'a>(cache: &'a LruCache<Vec<u8>, Record>) -> (entries: Vec<(&'a Vec<u8>, &'a Record)>)
    ensures
        entries@.len() == lru_entries(*cache).len(),
        forall|i: int|
            0 <= i < entries@.len() ==> (#[trigger] entries@[i]).0@ == lru_entries(*cache)[i].0
                && entries@[i].1@ == lru_entries(*cache)[i].1,
{
    cache.iter().collect()
}

/// Under distinct keys a key has one place.
pub proof fn lemma_position_unique(entries: Entries, key: Seq<u8>, i: int)
    requires
        distinct_keys(entries),
        holds_at(entries, key, i),
    ensures
        has_key(entries, key),
        position(entries, key) == i,
        lookup(entries, key) == Some(entries[i].1),
{
    let p = position(entries, key);
    assert(holds_at(entries, key, p));
    if p < i {
        assert(entries[p].0 != entries[i].0);
    } else if i < p {
        assert(entries[i].0 != entries[p].0);
    }
}

/// A use keeps the keys distinct, and keeps what every key holds.
pub proof fn lemma_touched(entries: Entries, key: Seq<u8>)
    requires
        distinct_keys(entries),
    ensures
        distinct_keys(touched(entries, key)),
        touched(entries, key).len() == entries.len(),
        forall|other: Seq<u8>| lookup(touched(entries, key), other) == lookup(entries, other),
{
    let after = touched(entries, key);
    if has_key(entries, key) {
        let p = position(entries, key);
        assert(holds_at(entries, key, p));
        assert forall|i: int, j: int| 0 <= i < j < after.len() implies (#[trigger] after[i]).0 != (
        #[trigger] after[j]).0 by {
            let oi = if i == 0 { p } else if i <= p { i - 1 } else { i };
            let oj = if j <= p { j - 1 } else { j };
            assert(after[i] == entries[oi]);
            assert(after[j] == entries[oj]);
            if oi < oj {
                assert(entries[oi].0 != entries[oj].0);
            } else {
                assert(entries[oj].0 != entries[oi].0);
            }
        }
        assert forall|other: Seq<u8>| lookup(after, other) == lookup(entries, other) by {
            if has_key(entries, other) {
                let q = position(entries, other);
                assert(holds_at(entries, other, q));
                let nq = if q == p { 0 } else if q < p { q + 1 } else { q };
                assert(after[nq] == entries[q]);
                assert(holds_at(after, other, nq));
                lemma_position_unique(after, other, nq);
            } else {
                if has_key(after, other) {
                    let n = position(after, other);
                    assert(holds_at(after, other, n));
                    let o = if n == 0 { p } else if n <= p { n - 1 } else { n };
                    assert(after[n] == entries[o]);
                    assert(holds_at(entries, other, o));
                }
            }
        }
    }
}

/// A put keeps the keys distinct and the length within the capacity; the key
/// then holds the value, and every other key that is still held holds what it held.
pub proof fn lemma_stored(entries: Entries, capacity: nat, key: Seq<u8>, value: RecordView)
    requires
        distinct_keys(entries),
        entries.len() <= capacity,
        capacity > 0,
    ensures
        distinct_keys(stored(entries, capacity, key, value)),
        stored(entries, capacity, key, value).len() <= capacity,
        stored(entries, capacity, key, value).len() >= 1,
        stored(entries, capacity, key, value)[0] == (key, value),
        lookup(stored(entries, capacity, key, value), key) == Some(value),
        forall|other: Seq<u8>|
            other != key && has_key(stored(entries, capacity, key, value), other) ==> lookup(
                stored(entries, capacity, key, value),
                other,
            ) == lookup(entries, other),
        forall|other: Seq<u8>|
            has_key(stored(entries, capacity, key, value), other) ==> other == key || has_key(
                entries,
                other,
            ),
        has_key(entries, key) || entries.len() < capacity ==> forall|other: Seq<u8>|
            has_key(entries, other) ==> has_key(stored(entries, capacity, key, value), other),
{
    let after = stored(entries, capacity, key, value);
    let p = position(entries, key);
    if has_key(entries, key) {
        assert(holds_at(entries, key, p));
    }
    // Where each later entry of `after` comes from.
    let origin = |n: int|
        if has_key(entries, key) {
            if n <= p {
                n - 1
            } else {
                n
            }
        } else {
            n - 1
        };
    assert forall|n: int| 1 <= n < after.len() implies 0 <= origin(n) < entries.len() && after[n]
        == entries[origin(n)] && entries[origin(n)].0 != key by {
        let o = origin(n);
        if has_key(entries, key) {
            if o < p {
                assert(entries[o].0 != entries[p].0);
            } else {
                assert(entries[p].0 != entries[o].0);
            }
        } else {
            assert(!holds_at(entries, key, o));
        }
    }
    assert forall|i: int, j: int| 0 <= i < j < after.len() implies (#[trigger] after[i]).0 != (
    #[trigger] after[j]).0 by {
        if i == 0 {
            assert(after[j] == entries[origin(j)]);
        } else {
            assert(after[i] == entries[origin(i)]);
            assert(after[j] == entries[origin(j)]);
            assert(entries[origin(i)].0 != entries[origin(j)].0);
        }
    }
    assert(holds_at(after, key, 0));
    lemma_position_unique(after, key, 0);
    assert forall|other: Seq<u8>| has_key(after, other) implies (other == key || has_key(
        entries,
        other,
    )) && (other != key ==> lookup(after, other) == lookup(entries, other)) by {
        let n = position(after, other);
        assert(holds_at(after, other, n));
        if other != key {
            assert(n >= 1);
            assert(after[n] == entries[origin(n)]);
            assert(holds_at(entries, other, origin(n)));
            lemma_position_unique(entries, other, origin(n));
            lemma_position_unique(after, other, n);
        }
    }
    if has_key(entries, key) || entries.len() < capacity {
        assert forall|other: Seq<u8>| has_key(entries, other) implies has_key(after, other) by {
            let q = position(entries, other);
            assert(holds_at(entries, other, q));
            if other == key {
                assert(holds_at(after, other, 0));
            } else {
                let n = if has_key(entries, key) {
                    if q < p {
                        q + 1
                    } else {
                        q
                    }
                } else {
                    q + 1
                };
                assert(after[n] == entries[q]);
                assert(holds_at(after, other, n));
            }
        }
    }
}

/// A put after a use of the same key is the put alone.
pub proof fn lemma_stored_after_touched(
    entries: Entries,
    capacity: nat,
    key: Seq<u8>,
    value: RecordView,
)
    requires
        distinct_keys(entries),
    ensures
        stored(touched(entries, key), capacity, key, value) == stored(
            entries,
            capacity,
            key,
            value,
        ),
{
    if has_key(entries, key) {
        let p = position(entries, key);
        assert(holds_at(entries, key, p));
        let moved = touched(entries, key);
        lemma_touched(entries, key);
        assert(holds_at(moved, key, 0));
        lemma_position_unique(moved, key, 0);
        assert(moved.remove(0) =~= entries.remove(p));
    }
}

/// A bounded cache from byte strings to records.
pub struct Cache {
    inner: LruCache<Vec<u8>, Record>,
}

impl Cache {
    /// The entries, the most recently used first.
    pub closed spec fn entries(&self) -> Entries {
        lru_entries(self.inner)
    }

    /// The number of entries that the cache holds at most.
    pub closed spec fn capacity(&self) -> nat {
        lru_capacity(self.inner)
    }

    /// No key occurs twice, and the entries are no more than the capacity, which is not zero.
    pub open spec fn wf(&self) -> bool {
        &&& distinct_keys(self.entries())
        &&& self.entries().len() <= self.capacity()
        &&& self.capacity() > 0
    }

    /// An empty cache, unless the capacity is zero.
    pub fn new(capacity: usize) -> (cache: Option<Cache>)
        ensures
            cache is Some <==> capacity > 0,
            cache matches Some(c) ==> c.wf() && c.entries().len() == 0 && c.capacity() == capacity,
    {
        if capacity == 0 {
            None
        } else {
            Some(Cache { inner: lru_new(capacity) })
        }
    }

    /// What the key holds; the key becomes the most recently used.
    pub fn get(&mut self, key: &Vec<u8>) -> (found: Option<&Record>)
        requires
            old(self).wf(),
        ensures
            final(self).wf(),
            final(self).entries() == touched(old(self).entries(), key@),
            final(self).capacity() == old(self).capacity(),
            match found {
                Some(record) => lookup(old(self).entries(), key@) == Some(record@),
                None => !has_key(old(self).entries(), key@),
            },
    {
        proof {
            lemma_touched(self.entries(), key@);
        }
        lru_get(&mut self.inner, key)
    }

    /// Puts the value under the key and returns what the key held before.
    pub fn put(&mut self, key: Vec<u8>, value: Record) -> (previous: Option<Record>)
        requires
            old(self).wf(),
        ensures
            final(self).wf(),
            final(self).entries() == stored(
                old(self).entries(),
                old(self).capacity(),
                key@,
                value@,
            ),
            final(self).capacity() == old(self).capacity(),
            match previous {
                Some(record) => lookup(old(self).entries(), key@) == Some(record@),
                None => !has_key(old(self).entries(), key@),
            },
    {
        proof {
            lemma_stored(self.entries(), self.capacity(), key@, value@);
        }
        lru_put(&mut self.inner, key, value)
    }

    /// Whether the key is held; this is no use of the key.
    pub fn contains(&self, key: &Vec<u8>) -> (found: bool)
        ensures
            found == has_key(self.entries(), key@),
    {
        lru_contains(&self.inner, key)
    }

    /// The entries, the most recently used first; this is no use of any key.
    pub fn iter(&self) -> (entries: Vec<(&Vec<u8>, &Record)>)
        ensures
            entries@.len() == self.entries().len(),
            forall|i: int|
                0 <= i < entries@.len() ==> (#[trigger] entries@[i]).0@ == self.entries()[i].0
                    && entries@[i].1@ == self.entries()[i].1,
    {
        lru_iter(&self.inner)
    }
}

} // verus!
