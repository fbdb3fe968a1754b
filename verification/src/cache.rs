//! Bounded least-recently-used request cache.
//!
//! The cache maps a [`Query`] (trimmed input text plus transformation mode) to
//! the output text a backend produced for it. Capacity is fixed when the cache
//! is constructed; both reads and writes count as a use, and a write into a
//! full cache evicts the least-recently-used entry.
//!
//! The stored entries are modelled as a sequence in recency order: index 0 is
//! the most-recently-used entry, the last index the least-recently-used one.

use crate::config::ConfigError;
use crate::mode::{mode_code, Mode};
use vstd::prelude::*;
use vstd::seq_lib::*;

verus! {

/// A cache key as it appears in the model: the text and the mode's tag.
pub type Key = (Seq<char>, u8);

/// A modelled cache entry: key and stored output text.
pub type Entry = (Key, Seq<char>);

/// The value type a cache lookup is keyed by: exact text plus mode.
#[derive(Debug)]
pub struct Query {
    pub text: String,
    pub mode: Mode,
}

/// The model-level key of a query.
pub open spec fn query_key(q: Query) -> Key {
    (q.text@, mode_code(q.mode))
}

/// Index of the first entry with key `k`, or `-1` when no entry has it.
pub open spec fn find_key(entries: Seq<Entry>, k: Key) -> int
    decreases entries.len(),
{
    if entries.len() == 0 {
        -1
    } else if entries[0].0 == k {
        0
    } else {
        let r = find_key(entries.drop_first(), k);
        if r == -1 {
            -1
        } else {
            r + 1
        }
    }
}

/// The output stored under `k`, if any.
pub open spec fn lookup(entries: Seq<Entry>, k: Key) -> Option<Seq<char>> {
    let i = find_key(entries, k);
    if i >= 0 {
        Some(entries[i].1)
    } else {
        None
    }
}

/// Recency order after a read of `k`: on a hit the entry moves to the
/// most-recently-used position, on a miss nothing changes.
pub open spec fn promote(entries: Seq<Entry>, k: Key) -> Seq<Entry> {
    let i = find_key(entries, k);
    if i >= 0 {
        seq![entries[i]] + entries.remove(i)
    } else {
        entries
    }
}

/// Recency order after a write of `(k, v)` into a cache of capacity `cap`:
/// the pair becomes most-recently-used; an entry already keyed by `k` is
/// replaced, and a full cache first evicts its least-recently-used entry.
pub open spec fn insert_model(entries: Seq<Entry>, cap: nat, k: Key, v: Seq<char>) -> Seq<Entry> {
    let i = find_key(entries, k);
    let fresh: Seq<Entry> = seq![(k, v)];
    if i >= 0 {
        fresh + entries.remove(i)
    } else if entries.len() >= cap {
        fresh + entries.drop_last()
    } else {
        fresh + entries
    }
}

/// No two entries share a key.
pub open spec fn distinct_keys(entries: Seq<Entry>) -> bool {
    forall|i: int, j: int|
        0 <= i < j < entries.len() ==> (#[trigger] entries[i]).0 != (#[trigger] entries[j]).0
}

/// What `find_key` returns: a valid index bearing the key, before which the
/// key does not occur, or `-1` when the key occurs nowhere.
pub proof fn lemma_find_key_char(entries: Seq<Entry>, k: Key)
    ensures
        find_key(entries, k) == -1 || 0 <= find_key(entries, k) < entries.len(),
        find_key(entries, k) >= 0 ==> entries[find_key(entries, k)].0 == k,
        find_key(entries, k) == -1 ==> forall|i: int|
            0 <= i < entries.len() ==> (#[trigger] entries[i]).0 != k,
        forall|i: int| 0 <= i < find_key(entries, k) ==> (#[trigger] entries[i]).0 != k,
    decreases entries.len(),
{
    if entries.len() > 0 && entries[0].0 != k {
        lemma_find_key_char(entries.drop_first(), k);
        if find_key(entries, k) == -1 {
            assert forall|i: int| 0 <= i < entries.len() implies (#[trigger] entries[i]).0 != k by {
                if i >= 1 {
                    assert(entries[i] == entries.drop_first()[i - 1]);
                }
            }
        }
        assert forall|i: int| 0 <= i < find_key(entries, k) implies (#[trigger] entries[i]).0
            != k by {
            if i >= 1 {
                assert(entries[i] == entries.drop_first()[i - 1]);
            }
        }
    }
}

/// A key that occurs at index `i` is found at or before `i`.
pub proof fn lemma_find_key_present(entries: Seq<Entry>, k: Key, i: int)
    requires
        0 <= i < entries.len(),
        entries[i].0 == k,
    ensures
        0 <= find_key(entries, k) <= i,
        entries[find_key(entries, k)].0 == k,
{
    lemma_find_key_char(entries, k);
}

/// With distinct keys, the entry found for `k` is the one at any index
/// bearing `k`.
pub proof fn lemma_lookup_index(entries: Seq<Entry>, k: Key, i: int)
    requires
        distinct_keys(entries),
        0 <= i < entries.len(),
        entries[i].0 == k,
    ensures
        find_key(entries, k) == i,
        lookup(entries, k) == Some(entries[i].1),
{
    lemma_find_key_present(entries, k, i);
}

/// Removing an entry keeps the remaining keys distinct, and removes no key
/// but the one at the removed index.
proof fn lemma_remove_keeps_distinct(entries: Seq<Entry>, i: int)
    requires
        distinct_keys(entries),
        0 <= i < entries.len(),
    ensures
        distinct_keys(entries.remove(i)),
        forall|j: int|
            0 <= j < entries.remove(i).len() ==> (#[trigger] entries.remove(i)[j]).0
                != entries[i].0,
{
    entries.remove_ensures(i);
    assert forall|p: int, q: int|
        0 <= p < q < entries.remove(i).len() implies (#[trigger] entries.remove(i)[p]).0 != (
    #[trigger] entries.remove(i)[q]).0 by {
        if p < i {
            assert(entries.remove(i)[p] == entries[p]);
        } else {
            assert(entries.remove(i)[p] == entries[p + 1]);
        }
        if q < i {
            assert(entries.remove(i)[q] == entries[q]);
        } else {
            assert(entries.remove(i)[q] == entries[q + 1]);
        }
    }
    assert forall|j: int| 0 <= j < entries.remove(i).len() implies (#[trigger] entries.remove(
        i,
    )[j]).0 != entries[i].0 by {
        if j < i {
            assert(entries.remove(i)[j] == entries[j]);
        } else {
            assert(entries.remove(i)[j] == entries[j + 1]);
        }
    }
}

/// Prepending a fresh key keeps the keys distinct.
proof fn lemma_prepend_distinct(tail: Seq<Entry>, k: Key, v: Seq<char>)
    requires
        distinct_keys(tail),
        forall|j: int| 0 <= j < tail.len() ==> (#[trigger] tail[j]).0 != k,
    ensures
        distinct_keys(seq![((k, v))] + tail),
{
    let r = seq![((k, v))] + tail;
    assert forall|p: int, q: int| 0 <= p < q < r.len() implies (#[trigger] r[p]).0 != (
    #[trigger] r[q]).0 by {
        assert(r[q] == tail[q - 1]);
        if p > 0 {
            assert(r[p] == tail[p - 1]);
        }
    }
}

/// A read preserves the number of entries and their distinctness.
pub proof fn lemma_promote_wf(entries: Seq<Entry>, k: Key)
    requires
        distinct_keys(entries),
    ensures
        promote(entries, k).len() == entries.len(),
        distinct_keys(promote(entries, k)),
{
    lemma_find_key_char(entries, k);
    let i = find_key(entries, k);
    if i >= 0 {
        entries.remove_ensures(i);
        lemma_remove_keeps_distinct(entries, i);
        lemma_prepend_distinct(entries.remove(i), entries[i].0, entries[i].1);
        assert(seq![((entries[i].0, entries[i].1))] + entries.remove(i) =~= promote(entries, k));
    }
}

/// A write preserves distinctness and never grows the cache past its
/// capacity; afterwards the cache is non-empty.
pub proof fn lemma_insert_wf(entries: Seq<Entry>, cap: nat, k: Key, v: Seq<char>)
    requires
        distinct_keys(entries),
        entries.len() <= cap,
        cap >= 1,
    ensures
        distinct_keys(insert_model(entries, cap, k, v)),
        1 <= insert_model(entries, cap, k, v).len() <= cap,
{
    lemma_find_key_char(entries, k);
    let i = find_key(entries, k);
    if i >= 0 {
        entries.remove_ensures(i);
        lemma_remove_keeps_distinct(entries, i);
        lemma_prepend_distinct(entries.remove(i), k, v);
    } else if entries.len() >= cap {
        assert(distinct_keys(entries.drop_last())) by {
            assert(forall|j: int|
                0 <= j < entries.drop_last().len() ==> #[trigger] entries.drop_last()[j]
                    == entries[j]);
        }
        lemma_prepend_distinct(entries.drop_last(), k, v);
    } else {
        lemma_prepend_distinct(entries, k, v);
    }
}

/// Cache correctness: immediately after a write of `(k, v)`, a read of `k`
/// yields `v`.
pub proof fn lemma_insert_then_lookup(entries: Seq<Entry>, cap: nat, k: Key, v: Seq<char>)
    requires
        distinct_keys(entries),
        entries.len() <= cap,
        cap >= 1,
    ensures
        lookup(insert_model(entries, cap, k, v), k) == Some(v),
{
    lemma_insert_wf(entries, cap, k, v);
    lemma_lookup_index(insert_model(entries, cap, k, v), k, 0);
}

/// A write under one key leaves every other key's stored output in place,
/// as long as that key's entry is not the least-recently-used entry of a
/// full cache that a fresh key pushes out.
pub proof fn lemma_insert_preserves_others(
    entries: Seq<Entry>,
    cap: nat,
    k: Key,
    v: Seq<char>,
    k2: Key,
)
    requires
        distinct_keys(entries),
        entries.len() <= cap,
        cap >= 1,
        k2 != k,
        !(find_key(entries, k) == -1 && entries.len() == cap && entries.last().0 == k2),
    ensures
        lookup(insert_model(entries, cap, k, v), k2) == lookup(entries, k2),
{
    lemma_find_key_char(entries, k);
    lemma_find_key_char(entries, k2);
    lemma_insert_wf(entries, cap, k, v);
    let r = insert_model(entries, cap, k, v);
    let i = find_key(entries, k);
    let j = find_key(entries, k2);
    if i >= 0 {
        entries.remove_ensures(i);
        if j >= 0 {
            // the entry for k2 survives the removal of the entry for k
            if j < i {
                lemma_lookup_index(r, k2, j + 1);
            } else {
                lemma_lookup_index(r, k2, j);
            }
        } else {
            lemma_find_key_char(r, k2);
            if find_key(r, k2) >= 0 {
                let m = find_key(r, k2);
                assert(r[m] == entries.remove(i)[m - 1]);
                if m - 1 < i {
                    assert(r[m] == entries[m - 1]);
                } else {
                    assert(r[m] == entries[m]);
                }
            }
        }
    } else if entries.len() >= cap {
        assert(forall|t: int|
            0 <= t < entries.drop_last().len() ==> #[trigger] entries.drop_last()[t]
                == entries[t]);
        if j >= 0 {
            // k2's entry is not the evicted last entry
            assert(entries[j].0 == k2);
            assert(j != entries.len() - 1);
            lemma_lookup_index(r, k2, j + 1);
        } else {
            lemma_find_key_char(r, k2);
            if find_key(r, k2) >= 0 {
                let m = find_key(r, k2);
                assert(r[m] == entries[m - 1]);
            }
        }
    } else {
        if j >= 0 {
            lemma_lookup_index(r, k2, j + 1);
        } else {
            lemma_find_key_char(r, k2);
            if find_key(r, k2) >= 0 {
                let m = find_key(r, k2);
                assert(r[m] == entries[m - 1]);
            }
        }
    }
}

/// Capacity eviction: a write of a fresh key into a full cache evicts
/// exactly the least-recently-used entry — that key now misses, every other
/// key's stored output is untouched.
pub proof fn lemma_full_insert_evicts_lru(entries: Seq<Entry>, cap: nat, k: Key, v: Seq<char>)
    requires
        distinct_keys(entries),
        entries.len() == cap,
        cap >= 1,
        find_key(entries, k) == -1,
        k != entries.last().0,
    ensures
        insert_model(entries, cap, k, v) =~= seq![((k, v))] + entries.drop_last(),
        lookup(insert_model(entries, cap, k, v), entries.last().0) is None,
        forall|k2: Key|
            k2 != entries.last().0 && k2 != k ==> #[trigger] lookup(
                insert_model(entries, cap, k, v),
                k2,
            ) == lookup(entries, k2),
{
    lemma_find_key_char(entries, k);
    lemma_insert_wf(entries, cap, k, v);
    let r = insert_model(entries, cap, k, v);
    let last = entries.last().0;
    assert(forall|t: int|
        0 <= t < entries.drop_last().len() ==> #[trigger] entries.drop_last()[t] == entries[t]);
    // the evicted key occurs nowhere afterwards
    lemma_find_key_char(r, last);
    if find_key(r, last) >= 0 {
        let m = find_key(r, last);
        assert(r[m] == entries[m - 1]);
        assert(entries[m - 1].0 != entries[entries.len() - 1].0);
    }
    assert forall|k2: Key| k2 != last && k2 != k implies #[trigger] lookup(r, k2) == lookup(
        entries,
        k2,
    ) by {
        lemma_insert_preserves_others(entries, cap, k, v, k2);
    }
}

/// Cache promotion: after a read hit on `k`, its entry stands at the
/// most-recently-used position.
pub proof fn lemma_promote_front(entries: Seq<Entry>, k: Key)
    requires
        distinct_keys(entries),
        find_key(entries, k) >= 0,
    ensures
        promote(entries, k)[0].0 == k,
        find_key(promote(entries, k), k) == 0,
{
    lemma_find_key_char(entries, k);
    lemma_promote_wf(entries, k);
    lemma_lookup_index(promote(entries, k), k, 0);
}

/// A read changes which entry is evicted next, never what is stored: every
/// key's stored output is the same after a promotion.
pub proof fn lemma_promote_preserves_lookup(entries: Seq<Entry>, k: Key, k2: Key)
    requires
        distinct_keys(entries),
    ensures
        lookup(promote(entries, k), k2) == lookup(entries, k2),
{
    lemma_find_key_char(entries, k);
    lemma_find_key_char(entries, k2);
    lemma_promote_wf(entries, k);
    let i = find_key(entries, k);
    if i >= 0 {
        entries.remove_ensures(i);
        let r = promote(entries, k);
        let j = find_key(entries, k2);
        if j >= 0 {
            if j == i {
                lemma_lookup_index(r, k2, 0);
            } else if j < i {
                lemma_lookup_index(r, k2, j + 1);
            } else {
                lemma_lookup_index(r, k2, j);
            }
        } else {
            lemma_find_key_char(r, k2);
            if find_key(r, k2) >= 0 {
                let m = find_key(r, k2);
                if m == 0 {
                    assert(r[0] == entries[i]);
                } else {
                    assert(r[m] == entries.remove(i)[m - 1]);
                    if m - 1 < i {
                        assert(r[m] == entries[m - 1]);
                    } else {
                        assert(r[m] == entries[m]);
                    }
                }
            }
        }
    }
}

/// A cache hit answers from the store and leaves every stored output,
/// including its own, unchanged: repeated submissions of a cached pair keep
/// reading the same stored output, and the backend is never asked again.
pub proof fn lemma_hit_idempotent(entries: Seq<Entry>, k: Key, v: Seq<char>)
    requires
        distinct_keys(entries),
        lookup(entries, k) == Some(v),
    ensures
        lookup(promote(entries, k), k) == Some(v),
{
    lemma_promote_preserves_lookup(entries, k, k);
}

/// Mode isolation: the same text under two different modes lives under two
/// independent cache entries — while there is room, caching the pair under
/// one mode leaves what the other mode's key finds untouched, and a
/// following write under the other mode gives each key its own output.
pub proof fn lemma_mode_isolation(
    entries: Seq<Entry>,
    cap: nat,
    text: Seq<char>,
    m1: Mode,
    m2: Mode,
    v1: Seq<char>,
    v2: Seq<char>,
)
    requires
        distinct_keys(entries),
        entries.len() + 2 <= cap,
        m1 != m2,
    ensures
        ({
            let k1 = (text, mode_code(m1));
            let k2 = (text, mode_code(m2));
            let once = insert_model(entries, cap, k1, v1);
            let twice = insert_model(once, cap, k2, v2);
            &&& lookup(once, k2) == lookup(entries, k2)
            &&& lookup(twice, k1) == Some(v1)
            &&& lookup(twice, k2) == Some(v2)
        }),
{
    let k1 = (text, mode_code(m1));
    let k2 = (text, mode_code(m2));
    crate::mode::lemma_mode_code_injective(m1, m2);
    let once = insert_model(entries, cap, k1, v1);
    lemma_insert_wf(entries, cap, k1, v1);
    lemma_find_key_char(entries, k1);
    assert(once.len() <= entries.len() + 1);
    lemma_insert_preserves_others(entries, cap, k1, v1, k2);
    lemma_insert_then_lookup(entries, cap, k1, v1);
    lemma_find_key_char(once, k2);
    lemma_insert_preserves_others(once, cap, k2, v2, k1);
    lemma_insert_then_lookup(once, cap, k2, v2);
}

/// A fresh, empty cache misses every query: after a configuration
/// replacement installs one, a previously cached pair forces a new backend
/// call.
pub proof fn lemma_empty_cache_misses(k: Key)
    ensures
        lookup(Seq::<Entry>::empty(), k) is None,
{
}

/// Cache promotion protects against the next eviction: once `k2` has been
/// read, a write of a fresh key into the full cache evicts some other entry,
/// and `k2`'s stored output survives.
pub proof fn lemma_promoted_survives_eviction(
    entries: Seq<Entry>,
    cap: nat,
    k: Key,
    v: Seq<char>,
    k2: Key,
)
    requires
        distinct_keys(entries),
        entries.len() == cap,
        cap >= 2,
        k != k2,
        lookup(entries, k2) is Some,
        lookup(entries, k) is None,
    ensures
        lookup(insert_model(promote(entries, k2), cap, k, v), k2) == lookup(entries, k2),
{
    lemma_find_key_char(entries, k);
    lemma_find_key_char(entries, k2);
    lemma_promote_wf(entries, k2);
    lemma_promote_front(entries, k2);
    lemma_promote_preserves_lookup(entries, k2, k2);
    lemma_promote_preserves_lookup(entries, k2, k);
    let p = promote(entries, k2);
    lemma_find_key_char(p, k);
    // the promoted entry is first and the cache holds at least two entries,
    // so the last entry carries a different key
    assert(p.last().0 != k2) by {
        lemma_lookup_index(p, k2, 0);
        assert(p.len() >= 2);
    }
    lemma_insert_preserves_others(p, cap, k, v, k2);
}

#[verifier::external_type_specification]
#[verifier::external_body]
#[verifier::reject_recursive_types(K)]
#[verifier::reject_recursive_types(V)]
#[verifier::reject_recursive_types(S)]
pub struct ExLruCache<K, V, S>(lru::LruCache<K, V, S>);

/// The concrete cache the library holds: keyed by text and mode tag, hashed
/// with std's default hasher.
type LruInner = lru::LruCache<(String, u8), String, std::collections::hash_map::RandomState>;

/// The entries an LRU cache holds, most-recently-used first.
pub uninterp spec fn lru_entries(c: LruInner) -> Seq<Entry>;

/// The capacity an LRU cache was constructed with.
pub uninterp spec fn lru_cap(c: LruInner) -> nat;

/// Relies on lru::LruCache::with_hasher: a fresh cache is empty and keeps the
/// capacity it was constructed with.
#[verifier::external_body]
fn lru_new(cap: usize) -> (c: LruInner)
    requires
        1 <= cap,
    ensures
        lru_entries(c) == Seq::<Entry>::empty(),
        lru_cap(c) == cap,
{
    lru::LruCache::with_hasher(
        std::num::NonZeroUsize::new(cap).unwrap(),
        std::collections::hash_map::RandomState::new(),
    )
}

/// Relies on lru::LruCache::get: a hit hands back the stored value and moves
/// the entry to the most-recently-used position; a miss changes nothing.
#[verifier::external_body]
fn lru_get(c: &mut LruInner, k: &(String, u8)) -> (r: Option<String>)
    ensures
        lru_cap(*final(c)) == lru_cap(*old(c)),
        r.deep_view() == lookup(lru_entries(*old(c)), k.deep_view()),
        lru_entries(*final(c)) == promote(lru_entries(*old(c)), k.deep_view()),
{
    c.get(k).cloned()
}

/// Relies on lru::LruCache::put: the pair becomes the most-recently-used
/// entry; an entry already under the key is replaced and its old value handed
/// back, and a full cache first evicts its least-recently-used entry.
#[verifier::external_body]
fn lru_put(c: &mut LruInner, k: (String, u8), v: String) -> (r: Option<
    String,
>)
    ensures
        lru_cap(*final(c)) == lru_cap(*old(c)),
        r.deep_view() == lookup(lru_entries(*old(c)), k.deep_view()),
        lru_entries(*final(c)) == insert_model(
            lru_entries(*old(c)),
            lru_cap(*old(c)),
            k.deep_view(),
            v@,
        ),
{
    c.put(k, v)
}

/// The bounded least-recently-used map from queries to produced outputs.
pub struct Cache {
    inner: LruInner,
}

impl Cache {
    /// The stored entries in recency order, most-recently-used first.
    pub closed spec fn entries(&self) -> Seq<Entry> {
        lru_entries(self.inner)
    }

    /// The fixed capacity.
    pub closed spec fn capacity(&self) -> nat {
        lru_cap(self.inner)
    }

    /// Well-formedness: positive capacity, never more entries than capacity,
    /// and no key twice.
    pub open spec fn wf(&self) -> bool {
        &&& self.capacity() >= 1
        &&& self.entries().len() <= self.capacity()
        &&& distinct_keys(self.entries())
    }

    /// Constructs an empty cache; a zero capacity is rejected.
    pub fn new(capacity: usize) -> (r: Result<Cache, ConfigError>)
        ensures
            capacity >= 1 ==> (r matches Ok(c) && c.entries() == Seq::<Entry>::empty()
                && c.capacity() == capacity && c.wf()),
            capacity == 0 ==> (r matches Err(e) && e == ConfigError::ZeroCacheCapacity),
    {
        if capacity == 0 {
            Err(ConfigError::ZeroCacheCapacity)
        } else {
            Ok(Cache { inner: lru_new(capacity) })
        }
    }

    /// Looks the query up; a hit hands back the stored output and counts as a
    /// use, promoting the entry to most-recently-used.
    pub fn get(&mut self, q: &Query) -> (r: Option<String>)
        requires
            old(self).wf(),
        ensures
            final(self).wf(),
            final(self).capacity() == old(self).capacity(),
            r.deep_view() == lookup(old(self).entries(), query_key(*q)),
            final(self).entries() == promote(old(self).entries(), query_key(*q)),
    {
        let k = (q.text.clone(), mode_code(q.mode));
        let r = lru_get(&mut self.inner, &k);
        proof {
            lemma_promote_wf(old(self).entries(), query_key(*q));
        }
        r
    }

    /// Stores the output under the query; the pair becomes the
    /// most-recently-used entry, and a full cache first evicts its
    /// least-recently-used entry.
    pub fn put(&mut self, q: &Query, output: String) -> (r: Option<String>)
        requires
            old(self).wf(),
        ensures
            final(self).wf(),
            final(self).capacity() == old(self).capacity(),
            r.deep_view() == lookup(old(self).entries(), query_key(*q)),
            final(self).entries() == insert_model(
                old(self).entries(),
                old(self).capacity(),
                query_key(*q),
                output@,
            ),
    {
        let k = (q.text.clone(), mode_code(q.mode));
        let r = lru_put(&mut self.inner, k, output);
        proof {
            lemma_insert_wf(
                old(self).entries(),
                old(self).capacity(),
                query_key(*q),
                output@,
            );
        }
        r
    }
}

} // verus!

