//! The fetch cache: a bounded store from cache key to the raw bytes last
//! fetched for it, which evicts the least recently used entry when full.
//!
//! The store is an `lru::LruCache`. Its contents are modelled as a sequence
//! of `(key, bytes)` pairs, the most recently used first.

use crate::error::FetchError;
use crate::raw::bytes_content;
use crate::source::cache_key;
use crate::source::SourceUrl;
use bytes::Bytes;
use lru::LruCache;
use vstd::prelude::*;

verus! {

/// `lru::LruCache`, declared so that it can stand in a field.
#[verifier::external_type_specification]
#[verifier::external_body]
#[verifier::reject_recursive_types(K)]
#[verifier::reject_recursive_types(V)]
#[verifier::reject_recursive_types(S)]
pub struct ExLruCache<K, V, S>(LruCache<K, V, S>);

/// The hasher that an `LruCache` builds its table with when none is named:
/// `lru::DefaultHasher`. The library never calls it.
#[verifier::external_type_specification]
#[verifier::external_body]
pub struct ExTableHasher(lru::DefaultHasher);

/// What an `LruCache` holds: its entries from the most recently used to the
/// least recently used, each with the bytes of its buffer.
pub uninterp spec fn lru_entries(store: LruCache<u64, Bytes>) -> Seq<(u64, Seq<u8>)>;

/// The capacity that an `LruCache` was made with.
pub uninterp spec fn lru_capacity(store: LruCache<u64, Bytes>) -> nat;

/// The largest capacity that a cache can be made with.
pub const MAX_CAPACITY: usize = 0x10_0000;

/// The capacity of a cache that is made without naming one.
pub const DEFAULT_CAPACITY: usize = 1024;

/// Whether `entries` has an entry under `key`.
pub open spec fn holds(entries: Seq<(u64, Seq<u8>)>, key: u64) -> bool {
    exists|i: int| 0 <= i < entries.len() && (#[trigger] entries[i]).0 == key
}

/// The place of an entry under `key`, if there is one.
pub open spec fn slot(entries: Seq<(u64, Seq<u8>)>, key: u64) -> int {
    choose|i: int| 0 <= i < entries.len() && (#[trigger] entries[i]).0 == key
}

/// No two entries share a key.
pub open spec fn distinct_keys(entries: Seq<(u64, Seq<u8>)>) -> bool {
    forall|i: int, j: int|
        0 <= i < j < entries.len() ==> (#[trigger] entries[i]).0 != (#[trigger] entries[j]).0
}

/// The bytes cached under `key`, where there is an entry under it.
pub open spec fn cached(entries: Seq<(u64, Seq<u8>)>, key: u64) -> Seq<u8> {
    entries[slot(entries, key)].1
}

/// The entries after the one at `i` was used: it moves to the front, the
/// others keep their order.
pub open spec fn promoted(entries: Seq<(u64, Seq<u8>)>, i: int) -> Seq<(u64, Seq<u8>)> {
    seq![entries[i]] + entries.remove(i)
}

/// The entries after `data` was stored under `key` in a store of the given
/// capacity. An entry under the same key is replaced and moves to the
/// front. Otherwise the new entry goes to the front, and when the store is
/// full the last entry, the least recently used, leaves first. A store of
/// capacity zero keeps nothing.
pub open spec fn stored(
    entries: Seq<(u64, Seq<u8>)>,
    capacity: nat,
    key: u64,
    data: Seq<u8>,
) -> Seq<(u64, Seq<u8>)> {
    if holds(entries, key) {
        seq![(key, data)] + entries.remove(slot(entries, key))
    } else if capacity == 0 {
        entries
    } else if entries.len() == capacity {
        seq![(key, data)] + entries.drop_last()
    } else {
        seq![(key, data)] + entries
    }
}

/// `LruCache::new`: an empty store of the given capacity. The bound keeps
/// the table that is allocated at once within what can be addressed.
#[verifier::external_body]
fn lru_new(capacity: usize) -> (store: LruCache<u64, Bytes>)
    requires
        capacity <= MAX_CAPACITY,
    ensures
        lru_entries(store) == Seq::<(u64, Seq<u8>)>::empty(),
        lru_capacity(store) == capacity,
{
    LruCache::new(capacity)
}

/// `LruCache::len`: the number of entries.
#[verifier::external_body]
fn lru_len(store: &LruCache<u64, Bytes>) -> (len: usize)
    ensures
        len == lru_entries(*store).len(),
{
    store.len()
}

/// `LruCache::contains`: whether there is an entry under `key`. The order
/// of use does not change.
#[verifier::external_body]
fn lru_contains(store: &LruCache<u64, Bytes>, key: u64) -> (found: bool)
    ensures
        found == holds(lru_entries(*store), key),
{
    store.contains(&key)
}

/// `LruCache::get`, with the buffer that was found cloned. An entry under
/// `key` moves to the front and its bytes are handed out; without one the
/// store stays as it was.
#[verifier::external_body]
fn lru_get(store: &mut LruCache<u64, Bytes>, key: u64) -> (found: Option<Bytes>)
    requires
        distinct_keys(lru_entries(*old(store))),
    ensures
        lru_capacity(*final(store)) == lru_capacity(*old(store)),
        found is Some == holds(lru_entries(*old(store)), key),
        found is Some ==> bytes_content(found->0) == cached(lru_entries(*old(store)), key),
        lru_entries(*final(store)) == if holds(lru_entries(*old(store)), key) {
            promoted(lru_entries(*old(store)), slot(lru_entries(*old(store)), key))
        } else {
            lru_entries(*old(store))
        },
{
    store.get(&key).cloned()
}

/// `LruCache::put`, with the buffer cloned and the value that was replaced
/// dropped. The entries change as `stored` says.
#[verifier::external_body]
fn lru_put(store: &mut LruCache<u64, Bytes>, key: u64, data: &Bytes)
    requires
        distinct_keys(lru_entries(*old(store))),
    ensures
        lru_capacity(*final(store)) == lru_capacity(*old(store)),
        lru_entries(*final(store)) == stored(
            lru_entries(*old(store)),
            lru_capacity(*old(store)),
            key,
            bytes_content(*data),
        ),
{
    store.put(key, data.clone());
}

/// Whether a response status is a success: 200 to 299.
pub open spec fn is_success(status: u16) -> bool {
    200 <= status < 300
}

/// What a fetch comes to, from the status of the response and from what
/// reading its body gave: the body where the status is a success, a failed
/// fetch where it is not, whatever the body.
pub fn fetch_outcome(status: u16, body: Result<Bytes, FetchError>) -> (outcome: Result<
    Bytes,
    FetchError,
>)
    ensures
        is_success(status) ==> outcome == body,
        !is_success(status) ==> outcome == Err::<Bytes, FetchError>(FetchError {}),
{
    if 200 <= status && status < 300 {
        body
    } else {
        Err(FetchError {})
    }
}

/// What the cache asks of its caller after a lookup.
pub enum FetchStep {
    /// The bytes were in the cache: nothing is to be fetched.
    Hit(Bytes),
    /// Nothing is cached under this key: the caller fetches the source and
    /// hands the outcome to [`FetchCache::complete`].
    Miss(u64),
}

/// The shared cache of fetched source bytes. It holds the bytes as they
/// were fetched, never a result of the engine, so that requests for one
/// source with different operations share one entry. A key is the hash of
/// an address: two addresses with one key share an entry, and the one
/// stored last is handed out for both.
///
/// The cache does no locking. A program that shares it holds one lock
/// around `get_or_fetch` and, after a miss, the fetch and `complete`.
pub struct FetchCache {
    store: LruCache<u64, Bytes>,
}

impl FetchCache {
    /// The entries, the most recently used first.
    pub closed spec fn entries(&self) -> Seq<(u64, Seq<u8>)> {
        lru_entries(self.store)
    }

    /// The number of entries that the cache can hold.
    pub closed spec fn capacity(&self) -> nat {
        lru_capacity(self.store)
    }

    /// No key occurs twice and the cache holds no more than its capacity.
    pub open spec fn wf(&self) -> bool {
        &&& distinct_keys(self.entries())
        &&& self.entries().len() <= self.capacity()
    }

    /// An empty cache of the given capacity.
    pub fn new(capacity: usize) -> (cache: FetchCache)
        requires
            capacity <= MAX_CAPACITY,
        ensures
            cache.wf(),
            cache.entries() == Seq::<(u64, Seq<u8>)>::empty(),
            cache.capacity() == capacity,
    {
        FetchCache { store: lru_new(capacity) }
    }

    /// The number of entries.
    pub fn len(&self) -> (len: usize)
        ensures
            len == self.entries().len(),
    {
        lru_len(&self.store)
    }

    /// Whether bytes are cached under `key`. This is not a use: the order
    /// of eviction stays as it was.
    pub fn contains(&self, key: u64) -> (found: bool)
        ensures
            found == holds(self.entries(), key),
    {
        lru_contains(&self.store, key)
    }

    /// Looks `key` up. A hit hands out a copy of the bytes and makes the
    /// entry the most recently used; a miss changes nothing.
    pub fn get(&mut self, key: u64) -> (found: Option<Bytes>)
        requires
            old(self).wf(),
        ensures
            final(self).wf(),
            final(self).capacity() == old(self).capacity(),
            match found {
                Some(data) => {
                    &&& holds(old(self).entries(), key)
                    &&& bytes_content(data) == cached(old(self).entries(), key)
                    &&& final(self).entries() == promoted(
                        old(self).entries(),
                        slot(old(self).entries(), key),
                    )
                },
                None => !holds(old(self).entries(), key) && final(self).entries() == old(
                    self,
                ).entries(),
            },
    {
        let found = lru_get(&mut self.store, key);
        proof {
            if holds(old(self).entries(), key) {
                lemma_promoted_distinct(old(self).entries(), slot(old(self).entries(), key));
            }
        }
        found
    }

    /// Stores `data` under `key` as the most recently used entry. When the
    /// key is new and the cache is full, the least recently used entry is
    /// evicted first. This never fails.
    pub fn put(&mut self, key: u64, data: &Bytes)
        requires
            old(self).wf(),
        ensures
            final(self).wf(),
            final(self).capacity() == old(self).capacity(),
            final(self).entries() == stored(
                old(self).entries(),
                old(self).capacity(),
                key,
                bytes_content(*data),
            ),
    {
        lru_put(&mut self.store, key, data);
        proof {
            lemma_stored_distinct(
                old(self).entries(),
                old(self).capacity(),
                key,
                bytes_content(*data),
            );
        }
    }

    /// The first half of a request for the bytes of `url`: looks its key
    /// up. On a hit the bytes are handed out and the entry becomes the most
    /// recently used. On a miss the cache is unchanged and the caller is
    /// told to fetch.
    pub fn get_or_fetch(&mut self, url: &SourceUrl) -> (step: FetchStep)
        requires
            old(self).wf(),
        ensures
            final(self).wf(),
            final(self).capacity() == old(self).capacity(),
            match step {
                FetchStep::Hit(data) => {
                    &&& holds(old(self).entries(), cache_key(url@))
                    &&& bytes_content(data) == cached(old(self).entries(), cache_key(url@))
                    &&& final(self).entries() == promoted(
                        old(self).entries(),
                        slot(old(self).entries(), cache_key(url@)),
                    )
                },
                FetchStep::Miss(key) => {
                    &&& key == cache_key(url@)
                    &&& !holds(old(self).entries(), key)
                    &&& final(self).entries() == old(self).entries()
                },
            },
    {
        let key = url.key();
        match self.get(key) {
            Some(data) => FetchStep::Hit(data),
            None => FetchStep::Miss(key),
        }
    }

    /// The second half, after a miss: takes the outcome of the fetch.
    /// Fetched bytes are stored under `key` and handed back; a failed fetch
    /// is handed back as it is and leaves the cache untouched.
    pub fn complete(&mut self, key: u64, outcome: Result<Bytes, FetchError>) -> (result: Result<
        Bytes,
        FetchError,
    >)
        requires
            old(self).wf(),
        ensures
            final(self).wf(),
            final(self).capacity() == old(self).capacity(),
            match outcome {
                Ok(fetched) => {
                    &&& result == Ok::<Bytes, FetchError>(fetched)
                    &&& final(self).entries() == stored(
                        old(self).entries(),
                        old(self).capacity(),
                        key,
                        bytes_content(fetched),
                    )
                },
                Err(e) => result == Err::<Bytes, FetchError>(e) && final(self).entries() == old(
                    self,
                ).entries(),
            },
    {
        match outcome {
            Ok(fetched) => {
                self.put(key, &fetched);
                Ok(fetched)
            },
            Err(e) => Err(e),
        }
    }
}

/// Moving an entry to the front keeps the keys distinct and the length.
pub proof fn lemma_promoted_distinct(entries: Seq<(u64, Seq<u8>)>, i: int)
    requires
        distinct_keys(entries),
        0 <= i < entries.len(),
    ensures
        distinct_keys(promoted(entries, i)),
        promoted(entries, i).len() == entries.len(),
{
    let p = promoted(entries, i);
    assert forall|a: int, b: int| 0 <= a < b < p.len() implies (#[trigger] p[a]).0 != (
    #[trigger] p[b]).0 by {
        let rest = entries.remove(i);
        let jb = if b - 1 < i { b - 1 } else { b };
        assert(p[b] == rest[b - 1]);
        assert(rest[b - 1] == entries[jb]);
        if a == 0 {
            assert(p[a] == entries[i]);
        } else {
            let ja = if a - 1 < i { a - 1 } else { a };
            assert(p[a] == rest[a - 1]);
            assert(rest[a - 1] == entries[ja]);
        }
    }
}

/// Storing keeps the keys distinct and the cache within its capacity.
pub proof fn lemma_stored_distinct(
    entries: Seq<(u64, Seq<u8>)>,
    capacity: nat,
    key: u64,
    data: Seq<u8>,
)
    requires
        distinct_keys(entries),
        entries.len() <= capacity,
    ensures
        distinct_keys(stored(entries, capacity, key, data)),
        stored(entries, capacity, key, data).len() <= capacity,
{
    let s = stored(entries, capacity, key, data);
    if holds(entries, key) {
        let i = slot(entries, key);
        let rest = entries.remove(i);
        assert forall|a: int, b: int| 0 <= a < b < s.len() implies (#[trigger] s[a]).0 != (
        #[trigger] s[b]).0 by {
            let jb = if b - 1 < i { b - 1 } else { b };
            assert(s[b] == rest[b - 1]);
            assert(rest[b - 1] == entries[jb]);
            if a == 0 {
                assert(s[a].0 == entries[i].0);
            } else {
                let ja = if a - 1 < i { a - 1 } else { a };
                assert(s[a] == rest[a - 1]);
                assert(rest[a - 1] == entries[ja]);
            }
        }
    } else if capacity == 0 {
    } else {
        let rest = if entries.len() == capacity { entries.drop_last() } else { entries };
        assert forall|a: int, b: int| 0 <= a < b < s.len() implies (#[trigger] s[a]).0 != (
        #[trigger] s[b]).0 by {
            assert(s[b] == rest[b - 1]);
            assert(rest[b - 1] == entries[b - 1]);
            if a == 0 {
                assert(s[a].0 == key);
            } else {
                assert(s[a] == rest[a - 1]);
                assert(rest[a - 1] == entries[a - 1]);
            }
        }
    }
}

impl Default for FetchCache {
    /// An empty cache of `DEFAULT_CAPACITY` entries.
    fn default() -> (cache: FetchCache)
        ensures
            cache.wf(),
            cache.entries() == Seq::<(u64, Seq<u8>)>::empty(),
            cache.capacity() == DEFAULT_CAPACITY,
    {
        FetchCache::new(DEFAULT_CAPACITY)
    }
}

/// With distinct keys, the entry under a key is at one place only.
pub proof fn lemma_slot_unique(entries: Seq<(u64, Seq<u8>)>, key: u64, i: int)
    requires
        distinct_keys(entries),
        0 <= i < entries.len(),
        entries[i].0 == key,
    ensures
        holds(entries, key),
        slot(entries, key) == i,
{
    let j = slot(entries, key);
    if j < i {
        assert(entries[j].0 != entries[i].0);
    } else if i < j {
        assert(entries[i].0 != entries[j].0);
    }
}

/// After bytes were stored under a key in a cache that can hold anything
/// at all, the next request for that key is a hit, hands out those bytes,
/// and finds the entry in the most recently used place. So a second request
/// that follows the first at once asks for no second fetch.
pub proof fn lemma_stored_then_hit(
    entries: Seq<(u64, Seq<u8>)>,
    capacity: nat,
    key: u64,
    data: Seq<u8>,
)
    requires
        distinct_keys(entries),
        entries.len() <= capacity,
        capacity > 0,
    ensures
        holds(stored(entries, capacity, key, data), key),
        cached(stored(entries, capacity, key, data), key) == data,
        slot(stored(entries, capacity, key, data), key) == 0,
{
    let after = stored(entries, capacity, key, data);
    lemma_stored_distinct(entries, capacity, key, data);
    assert(after[0] == (key, data));
    lemma_slot_unique(after, key, 0);
}

/// After a hit, the next request for the same key is a hit again, hands
/// out the same bytes, and finds the entry in the most recently used place.
pub proof fn lemma_hit_then_hit(entries: Seq<(u64, Seq<u8>)>, key: u64)
    requires
        distinct_keys(entries),
        holds(entries, key),
    ensures
        holds(promoted(entries, slot(entries, key)), key),
        cached(promoted(entries, slot(entries, key)), key) == cached(entries, key),
        slot(promoted(entries, slot(entries, key)), key) == 0,
{
    let i = slot(entries, key);
    let after = promoted(entries, i);
    lemma_promoted_distinct(entries, i);
    assert(after[0] == entries[i]);
    lemma_slot_unique(after, key, 0);
}

/// Storing under a new key in a full cache evicts the entry that was used
/// least recently, the last one, and no other: every other entry stays, one
/// place further from the front.
pub proof fn lemma_evicts_least_recent(
    entries: Seq<(u64, Seq<u8>)>,
    capacity: nat,
    key: u64,
    data: Seq<u8>,
)
    requires
        distinct_keys(entries),
        entries.len() == capacity,
        capacity > 0,
        !holds(entries, key),
    ensures
        stored(entries, capacity, key, data).len() == capacity,
        !holds(stored(entries, capacity, key, data), entries.last().0),
        forall|i: int|
            0 <= i < entries.len() - 1 ==> stored(entries, capacity, key, data)[i + 1]
                == #[trigger] entries[i],
{
    let after = stored(entries, capacity, key, data);
    let gone = entries.last().0;
    assert(entries[entries.len() - 1].0 == gone);
    assert forall|i: int| 0 <= i < after.len() implies (#[trigger] after[i]).0 != gone by {
        if i == 0 {
            assert(after[0].0 == key);
        } else {
            assert(after[i] == entries[i - 1]);
            assert(entries[i - 1].0 != entries[entries.len() - 1].0);
        }
    }
}

/// Storing under a new key in a cache that is not full evicts nothing.
pub proof fn lemma_room_keeps_all(
    entries: Seq<(u64, Seq<u8>)>,
    capacity: nat,
    key: u64,
    data: Seq<u8>,
)
    requires
        entries.len() < capacity,
        !holds(entries, key),
    ensures
        stored(entries, capacity, key, data).len() == entries.len() + 1,
        forall|i: int|
            0 <= i < entries.len() ==> stored(entries, capacity, key, data)[i + 1]
                == #[trigger] entries[i],
{
}

/// A hit refreshes the entry: in a full cache of two entries or more, the
/// entry that was just hit outlives the next eviction, whatever its place
/// was before the hit.
pub proof fn lemma_hit_outlives_eviction(
    entries: Seq<(u64, Seq<u8>)>,
    capacity: nat,
    hit: u64,
    key: u64,
    data: Seq<u8>,
)
    requires
        distinct_keys(entries),
        entries.len() == capacity,
        capacity >= 2,
        holds(entries, hit),
        !holds(entries, key),
    ensures
        holds(stored(promoted(entries, slot(entries, hit)), capacity, key, data), hit),
        cached(stored(promoted(entries, slot(entries, hit)), capacity, key, data), hit)
            == cached(entries, hit),
{
    let i = slot(entries, hit);
    let used = promoted(entries, i);
    lemma_promoted_distinct(entries, i);
    assert(used[0] == entries[i]);
    assert forall|j: int| 0 <= j < used.len() implies (#[trigger] used[j]).0 != key by {
        if j == 0 {
        } else {
            let k = if j - 1 < i { j - 1 } else { j };
            assert(used[j] == entries.remove(i)[j - 1]);
            assert(entries.remove(i)[j - 1] == entries[k]);
        }
    }
    let after = stored(used, capacity, key, data);
    lemma_stored_distinct(used, capacity, key, data);
    assert(after[1] == used[0]);
    lemma_slot_unique(after, hit, 1);
}

/// When two requests for one key both missed and both stored what they
/// fetched, the cache holds one entry under that key, with the bytes that
/// were stored last; the second store adds no entry.
pub proof fn lemma_last_writer_wins(
    entries: Seq<(u64, Seq<u8>)>,
    capacity: nat,
    key: u64,
    first: Seq<u8>,
    second: Seq<u8>,
)
    requires
        distinct_keys(entries),
        entries.len() <= capacity,
        capacity > 0,
    ensures
        ({
            let once = stored(entries, capacity, key, first);
            let twice = stored(once, capacity, key, second);
            &&& distinct_keys(twice)
            &&& holds(twice, key)
            &&& cached(twice, key) == second
            &&& twice.len() == once.len()
        }),
{
    let once = stored(entries, capacity, key, first);
    lemma_stored_distinct(entries, capacity, key, first);
    lemma_stored_then_hit(entries, capacity, key, first);
    lemma_stored_then_hit(once, capacity, key, second);
    lemma_stored_distinct(once, capacity, key, second);
}

} // verus!
