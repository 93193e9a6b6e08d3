//! A bounded least-recently-used cache of metadata snapshots, with hit and
//! miss accounting.
use vstd::prelude::*;
use lru::LruCache;
use crate::portable_file::FileStat;
use crate::portable_file::FileStatView;
use crate::portable_path::PortablePath;
use crate::portable_path::string_views;
use crate::portable_path::join_parts;
use crate::portable_path::joined;
use vstd::string::StringExecFns;

verus! {

/// The entries of a cache, from the most recently used to the least
/// recently used: each a path and the snapshot kept for it.
pub type Entries = Seq<(Seq<Seq<char>>, FileStatView)>;

/// Whether `entries` holds `key` at position `i`.
pub open spec fn holds_at(entries: Entries, key: Seq<Seq<char>>, i: int) -> bool {
    0 <= i < entries.len() && entries[i].0 == key
}

/// Whether `entries` holds `key`.
pub open spec fn holds(entries: Entries, key: Seq<Seq<char>>) -> bool {
    exists|i: int| holds_at(entries, key, i)
}

/// A position at which `entries` holds `key`, if it holds it at all.
pub open spec fn position(entries: Entries, key: Seq<Seq<char>>) -> int {
    choose|i: int| holds_at(entries, key, i)
}

/// The snapshot kept for `key`.
pub open spec fn lookup(entries: Entries, key: Seq<Seq<char>>) -> Option<FileStatView> {
    if holds(entries, key) {
        Some(entries[position(entries, key)].1)
    } else {
        None
    }
}

/// The entries after `key` was looked up: a key that is held becomes the
/// most recently used.
pub open spec fn promoted(entries: Entries, key: Seq<Seq<char>>) -> Entries {
    if holds(entries, key) {
        seq![entries[position(entries, key)]] + entries.remove(position(entries, key))
    } else {
        entries
    }
}

/// The entries without `key`.
pub open spec fn removed(entries: Entries, key: Seq<Seq<char>>) -> Entries {
    if holds(entries, key) {
        entries.remove(position(entries, key))
    } else {
        entries
    }
}

/// The entries after `value` was stored under `key` in a cache of at most
/// `limit` entries: the key becomes the most recently used, and a new key
/// in a full cache displaces the least recently used entry.
pub open spec fn stored(
    entries: Entries,
    limit: nat,
    key: Seq<Seq<char>>,
    value: FileStatView,
) -> Entries {
    if holds(entries, key) {
        seq![(key, value)] + entries.remove(position(entries, key))
    } else if entries.len() > 0 && entries.len() >= limit {
        seq![(key, value)] + entries.drop_last()
    } else {
        seq![(key, value)] + entries
    }
}

/// Whether no key occurs twice in `entries`.
pub open spec fn distinct_keys(entries: Entries) -> bool {
    forall|i: int, j: int|
        0 <= i < j < entries.len() ==> (#[trigger] entries[i]).0 != (#[trigger] entries[j]).0
}

/// Whether `entries` can be the content of a cache of at most `limit`
/// entries.
pub open spec fn bounded(entries: Entries, limit: nat) -> bool {
    &&& limit >= 1
    &&& entries.len() <= limit
    &&& distinct_keys(entries)
}

/// A counter one step on, which stays at its largest value once there.
pub open spec fn bumped(n: u64) -> u64 {
    if n < u64::MAX {
        (n + 1) as u64
    } else {
        n
    }
}

/// `lru::LruCache`, taken as it is: nothing is known of what is inside.
#[verifier::external_type_specification]
#[verifier::external_body]
#[verifier::reject_recursive_types(K)]
#[verifier::reject_recursive_types(V)]
#[verifier::reject_recursive_types(S)]
pub struct ExLruCache<K, V, S>(LruCache<K, V, S>);

/// `lru::DefaultHasher`, the hasher of an `lru::LruCache` made with
/// `LruCache::new`, taken as it is.
#[verifier::external_type_specification]
#[verifier::external_body]
pub struct ExLruHasher(lru::DefaultHasher);

/// What an `lru::LruCache` holds: its entries from the most recently used
/// to the least recently used.
pub uninterp spec fn lru_entries(c: &LruCache<Vec<String>, FileStat>) -> Entries;

/// The capacity that an `lru::LruCache` was made with.
pub uninterp spec fn lru_limit(c: &LruCache<Vec<String>, FileStat>) -> nat;

/// The largest capacity that a cache can be made with: the table for it
/// is set up at once, and its size has to stay within what a machine with
/// 32-bit addresses can ask for.
pub const MAX_CAPACITY: usize = 0x100_0000;

/// `LruCache::new`: an empty map that holds at most `cap` entries. It
/// takes a capacity that is not zero, and sets up a hash table for `cap`
/// entries, which fails where the size of the table overflows.
#[verifier::external_body]
fn lru_new(cap: usize) -> (c: LruCache<Vec<String>, FileStat>)
    requires
        0 < cap <= MAX_CAPACITY,
    ensures
        lru_entries(&c) == Seq::<(Seq<Seq<char>>, FileStatView)>::empty(),
        lru_limit(&c) == cap,
{
    LruCache::new(std::num::NonZeroUsize::new(cap).unwrap())
}

/// `LruCache::len`: the number of entries held.
#[verifier::external_body]
fn lru_len(c: &LruCache<Vec<String>, FileStat>) -> (n: usize)
    ensures
        n == lru_entries(c).len(),
{
    c.len()
}

/// `LruCache::get`: the value kept for `key`, which thereby becomes the most
/// recently used entry; a key that is not held changes nothing.
#[verifier::external_body]
fn lru_get<'a>(c: &'a mut LruCache<Vec<String>, FileStat>, key: &Vec<String>) -> (found: Option<
    &'a FileStat,
>)
    ensures
        lru_limit(final(c)) == lru_limit(old(c)),
        lru_entries(final(c)) == promoted(lru_entries(old(c)), string_views(key@)),
        match found {
            Some(stat) => lookup(lru_entries(old(c)), string_views(key@)) == Some(stat@),
            None => !holds(lru_entries(old(c)), string_views(key@)),
        },
{
    c.get(key)
}

/// `LruCache::put`: stores `value` under `key` as the most recently used
/// entry, replacing the value of a key already held, and otherwise dropping
/// the least recently used entry when the map is full.
#[verifier::external_body]
fn lru_put(c: &mut LruCache<Vec<String>, FileStat>, key: Vec<String>, value: FileStat)
    ensures
        lru_limit(final(c)) == lru_limit(old(c)),
        lru_entries(final(c)) == stored(
            lru_entries(old(c)),
            lru_limit(old(c)),
            string_views(key@),
            value@,
        ),
{
    c.put(key, value);
}

/// `LruCache::pop`: removes `key` and hands back the value kept for it.
#[verifier::external_body]
fn lru_pop(c: &mut LruCache<Vec<String>, FileStat>, key: &Vec<String>) -> (taken: Option<FileStat>)
    ensures
        lru_limit(final(c)) == lru_limit(old(c)),
        lru_entries(final(c)) == removed(lru_entries(old(c)), string_views(key@)),
        match taken {
            Some(stat) => lookup(lru_entries(old(c)), string_views(key@)) == Some(stat@),
            None => !holds(lru_entries(old(c)), string_views(key@)),
        },
{
    c.pop(key)
}

/// `LruCache::iter`, each entry read for its key: the keys held, from the
/// most recently used to the least recently used.
#[verifier::external_body]
fn lru_keys(c: &LruCache<Vec<String>, FileStat>) -> (keys: Vec<Vec<String>>)
    ensures
        keys@.len() == lru_entries(c).len(),
        forall|i: int|
            0 <= i < keys@.len() ==> string_views((#[trigger] keys@[i])@) == lru_entries(c)[i].0,
{
    c.iter().map(|(k, _)| k.clone()).collect()
}

/// The keys of `entries` as text, each in double quotes on a line of its
/// own.
pub open spec fn key_lines(entries: Entries) -> Seq<char>
    decreases entries.len(),
{
    if entries.len() == 0 {
        Seq::empty()
    } else {
        key_lines(entries.drop_last()) + seq!['"'] + joined(entries.last().0) + seq!['"', '\n']
    }
}

/// A key that is held is held at exactly one position of entries with
/// distinct keys.
pub proof fn position_is_unique(entries: Entries, key: Seq<Seq<char>>, i: int)
    requires
        distinct_keys(entries),
        holds_at(entries, key, i),
    ensures
        holds(entries, key),
        position(entries, key) == i,
{
    let p = position(entries, key);
    assert(holds_at(entries, key, p));
    if p < i {
        assert(entries[p].0 != entries[i].0);
    }
    if i < p {
        assert(entries[i].0 != entries[p].0);
    }
}

/// Taking one entry out of entries with distinct keys leaves distinct keys,
/// and the key taken out is no longer held.
proof fn remove_keeps_distinct(entries: Entries, p: int)
    requires
        distinct_keys(entries),
        0 <= p < entries.len(),
    ensures
        distinct_keys(entries.remove(p)),
        !holds(entries.remove(p), entries[p].0),
{
    let rest = entries.remove(p);
    assert forall|i: int, j: int| 0 <= i < j < rest.len() implies (#[trigger] rest[i]).0 != (
    #[trigger] rest[j]).0 by {
        let a = if i < p { i } else { i + 1 };
        let b = if j < p { j } else { j + 1 };
        assert(rest[i] == entries[a]);
        assert(rest[j] == entries[b]);
        assert(entries[a].0 != entries[b].0);
    }
    assert forall|i: int| !holds_at(rest, entries[p].0, i) by {
        if 0 <= i < rest.len() {
            let a = if i < p { i } else { i + 1 };
            assert(rest[i] == entries[a]);
            if a < p {
                assert(entries[a].0 != entries[p].0);
            } else {
                assert(entries[p].0 != entries[a].0);
            }
        }
    }
}

/// Taking one entry out of entries with distinct keys leaves every other
/// key as it was.
proof fn remove_keeps_other(entries: Entries, p: int, key: Seq<Seq<char>>)
    requires
        distinct_keys(entries),
        0 <= p < entries.len(),
        key != entries[p].0,
    ensures
        lookup(entries.remove(p), key) == lookup(entries, key),
{
    let rest = entries.remove(p);
    remove_keeps_distinct(entries, p);
    if holds(entries, key) {
        let a = position(entries, key);
        assert(holds_at(entries, key, a));
        let i = if a < p { a } else { a - 1 };
        assert(rest[i] == entries[a]);
        assert(holds_at(rest, key, i));
        position_is_unique(rest, key, i);
    } else if holds(rest, key) {
        let i = position(rest, key);
        assert(holds_at(rest, key, i));
        let a = if i < p { i } else { i + 1 };
        assert(rest[i] == entries[a]);
        assert(holds_at(entries, key, a));
    }
}

/// Putting an entry with a key that is not yet held in front of entries
/// with distinct keys leaves distinct keys, and the new key is found first.
proof fn front_keeps_distinct(entries: Entries, key: Seq<Seq<char>>, value: FileStatView)
    requires
        distinct_keys(entries),
        !holds(entries, key),
    ensures
        distinct_keys(seq![(key, value)] + entries),
        lookup(seq![(key, value)] + entries, key) == Some(value),
{
    let all = seq![(key, value)] + entries;
    assert forall|i: int, j: int| 0 <= i < j < all.len() implies (#[trigger] all[i]).0 != (
    #[trigger] all[j]).0 by {
        assert(all[j] == entries[j - 1]);
        if i == 0 {
            assert(!holds_at(entries, key, j - 1));
        } else {
            assert(all[i] == entries[i - 1]);
            assert(entries[i - 1].0 != entries[j - 1].0);
        }
    }
    assert(holds_at(all, key, 0));
    position_is_unique(all, key, 0);
}

/// Putting an entry with a key that is not yet held in front of entries
/// with distinct keys leaves every other key as it was.
proof fn front_keeps_other(
    entries: Entries,
    key: Seq<Seq<char>>,
    value: FileStatView,
    other: Seq<Seq<char>>,
)
    requires
        distinct_keys(entries),
        !holds(entries, key),
        other != key,
    ensures
        lookup(seq![(key, value)] + entries, other) == lookup(entries, other),
{
    let all = seq![(key, value)] + entries;
    front_keeps_distinct(entries, key, value);
    if holds(entries, other) {
        let a = position(entries, other);
        assert(holds_at(entries, other, a));
        assert(all[a + 1] == entries[a]);
        assert(holds_at(all, other, a + 1));
        position_is_unique(all, other, a + 1);
    } else if holds(all, other) {
        let i = position(all, other);
        assert(holds_at(all, other, i));
        assert(all[i] == entries[i - 1]);
        assert(holds_at(entries, other, i - 1));
    }
}

/// Dropping the last of entries with distinct keys leaves distinct keys
/// that hold neither the last key nor any key that was not held.
proof fn drop_last_keeps_distinct(entries: Entries, key: Seq<Seq<char>>)
    requires
        distinct_keys(entries),
        entries.len() > 0,
        !holds(entries, key),
    ensures
        entries.drop_last() == entries.remove(entries.len() - 1),
        distinct_keys(entries.drop_last()),
        !holds(entries.drop_last(), key),
        !holds(entries.drop_last(), entries.last().0),
{
    let last = entries.len() - 1;
    remove_keeps_distinct(entries, last);
    assert(entries.drop_last() =~= entries.remove(last));
    assert forall|i: int| !holds_at(entries.drop_last(), key, i) by {
        if 0 <= i < last {
            assert(entries.drop_last()[i] == entries[i]);
            assert(!holds_at(entries, key, i));
        }
    }
}

/// A cache without entries holds no key: every first lookup is a miss.
pub proof fn empty_holds_nothing(key: Seq<Seq<char>>)
    ensures
        !holds(Seq::<(Seq<Seq<char>>, FileStatView)>::empty(), key),
        lookup(Seq::<(Seq<Seq<char>>, FileStatView)>::empty(), key) is None,
{
}

/// A lookup changes the order of the entries and nothing else: the cache
/// stays within its bound, holds as many entries, keeps for every key what it
/// kept before, and the key looked up, if held, is the most recently used.
pub proof fn lookup_refreshes_recency(entries: Entries, limit: nat, key: Seq<Seq<char>>)
    requires
        bounded(entries, limit),
    ensures
        bounded(promoted(entries, key), limit),
        promoted(entries, key).len() == entries.len(),
        forall|other: Seq<Seq<char>>|
            lookup(promoted(entries, key), other) == lookup(entries, other),
        holds(entries, key) ==> promoted(entries, key)[0].0 == key,
{
    if holds(entries, key) {
        let p = position(entries, key);
        assert(holds_at(entries, key, p));
        remove_keeps_distinct(entries, p);
        front_keeps_distinct(entries.remove(p), key, entries[p].1);
        assert(entries[p] == (key, entries[p].1));
        assert forall|other: Seq<Seq<char>>| lookup(promoted(entries, key), other) == lookup(
            entries,
            other,
        ) by {
            if other != key {
                remove_keeps_other(entries, p, other);
                front_keeps_other(entries.remove(p), key, entries[p].1, other);
            }
        }
    }
}

/// After a snapshot was stored under a key, a lookup of that key finds
/// exactly that snapshot, and the cache is still within its bound.
pub proof fn stored_is_found(
    entries: Entries,
    limit: nat,
    key: Seq<Seq<char>>,
    value: FileStatView,
)
    requires
        bounded(entries, limit),
    ensures
        bounded(stored(entries, limit, key, value), limit),
        lookup(stored(entries, limit, key, value), key) == Some(value),
        stored(entries, limit, key, value)[0] == (key, value),
{
    if holds(entries, key) {
        let p = position(entries, key);
        assert(holds_at(entries, key, p));
        remove_keeps_distinct(entries, p);
        front_keeps_distinct(entries.remove(p), key, value);
    } else if entries.len() > 0 && entries.len() >= limit {
        drop_last_keeps_distinct(entries, key);
        front_keeps_distinct(entries.drop_last(), key, value);
    } else {
        front_keeps_distinct(entries, key, value);
    }
}

/// After a key was removed, a lookup of that key finds nothing, every other
/// key is found as before, and the cache is still within its bound.
pub proof fn removed_is_missing(entries: Entries, limit: nat, key: Seq<Seq<char>>)
    requires
        bounded(entries, limit),
    ensures
        bounded(removed(entries, key), limit),
        !holds(removed(entries, key), key),
        lookup(removed(entries, key), key) is None,
        forall|other: Seq<Seq<char>>|
            other != key ==> lookup(removed(entries, key), other) == lookup(entries, other),
{
    if holds(entries, key) {
        let p = position(entries, key);
        assert(holds_at(entries, key, p));
        remove_keeps_distinct(entries, p);
        assert forall|other: Seq<Seq<char>>| other != key implies lookup(
            removed(entries, key),
            other,
        ) == lookup(entries, other) by {
            remove_keeps_other(entries, p, other);
        }
    }
}

/// Storing a new key in a full cache displaces the least recently used
/// entry and no other: the last key is gone, and every entry before it is
/// found as before. With room for two or more entries, the most recently
/// used one therefore stays.
pub proof fn full_cache_evicts_least_recent(
    entries: Entries,
    limit: nat,
    key: Seq<Seq<char>>,
    value: FileStatView,
)
    requires
        bounded(entries, limit),
        entries.len() == limit,
        !holds(entries, key),
    ensures
        stored(entries, limit, key, value) == seq![(key, value)] + entries.drop_last(),
        stored(entries, limit, key, value).len() == limit,
        !holds(stored(entries, limit, key, value), entries.last().0),
        forall|i: int|
            0 <= i < entries.len() - 1 ==> lookup(
                stored(entries, limit, key, value),
                (#[trigger] entries[i]).0,
            ) == Some(entries[i].1),
        limit >= 2 ==> lookup(stored(entries, limit, key, value), entries[0].0) == Some(
            entries[0].1,
        ),
{
    let last = entries.len() - 1;
    let kept = entries.drop_last();
    let after = stored(entries, limit, key, value);
    drop_last_keeps_distinct(entries, key);
    front_keeps_distinct(kept, key, value);
    assert(holds_at(entries, entries[last].0, last));
    assert(entries[last].0 != key);
    front_keeps_other(kept, key, value, entries[last].0);
    assert forall|i: int| 0 <= i < entries.len() - 1 implies lookup(
        after,
        (#[trigger] entries[i]).0,
    ) == Some(entries[i].1) by {
        let k = entries[i].0;
        assert(holds_at(entries, k, i));
        position_is_unique(entries, k, i);
        assert(k != entries[last].0);
        assert(k != key);
        remove_keeps_other(entries, last, k);
        front_keeps_other(kept, key, value, k);
    }
}

/// Storing under a key leaves every other key as it was, unless the cache is
/// full and the key is new: then only the least recently used key is lost.
pub proof fn stored_keeps_others(
    entries: Entries,
    limit: nat,
    key: Seq<Seq<char>>,
    value: FileStatView,
    other: Seq<Seq<char>>,
)
    requires
        bounded(entries, limit),
        other != key,
        holds(entries, key) || entries.len() < limit || other != entries.last().0,
    ensures
        lookup(stored(entries, limit, key, value), other) == lookup(entries, other),
{
    if holds(entries, key) {
        let p = position(entries, key);
        assert(holds_at(entries, key, p));
        remove_keeps_distinct(entries, p);
        remove_keeps_other(entries, p, other);
        front_keeps_other(entries.remove(p), key, value, other);
    } else if entries.len() > 0 && entries.len() >= limit {
        drop_last_keeps_distinct(entries, key);
        remove_keeps_other(entries, entries.len() - 1, other);
        front_keeps_other(entries.drop_last(), key, value, other);
    } else {
        front_keeps_other(entries, key, value, other);
    }
}

/// How often lookups found their key, and how often they did not.
#[derive(Debug, Clone, Copy, PartialEq, Eq)]
pub struct CacheStats {
    /// Lookups that found their key.
    pub hits: u64,
    /// Lookups that did not.
    pub misses: u64,
}

impl Default for CacheStats {
    /// No lookup counted yet.
    fn default() -> (stats: CacheStats)
        ensures
            stats.hits == 0,
            stats.misses == 0,
    {
        CacheStats { hits: 0, misses: 0 }
    }
}

/// A cache of at most a fixed number of snapshots, keyed by path. When it
/// is full, a new key displaces the one that was used least recently.
pub struct Cache {
    lru: LruCache<Vec<String>, FileStat>,
    stats: CacheStats,
}

impl Cache {
    /// The entries held, from the most recently used to the least recently
    /// used.
    pub closed spec fn entries(&self) -> Entries {
        lru_entries(&self.lru)
    }

    /// The most entries the cache holds.
    pub closed spec fn capacity(&self) -> nat {
        lru_limit(&self.lru)
    }

    /// The hit and miss counters.
    pub closed spec fn counters(&self) -> CacheStats {
        self.stats
    }

    /// Whether the cache is within its capacity and holds no key twice.
    pub open spec fn wf(&self) -> bool {
        bounded(self.entries(), self.capacity())
    }

    /// An empty cache for at most `capacity` entries, with both counters at
    /// zero.
    pub fn new(capacity: usize) -> (cache: Cache)
        requires
            0 < capacity <= MAX_CAPACITY,
        ensures
            cache.wf(),
            cache.entries().len() == 0,
            cache.capacity() == capacity,
            cache.counters().hits == 0,
            cache.counters().misses == 0,
    {
        Cache { lru: lru_new(capacity), stats: CacheStats { hits: 0, misses: 0 } }
    }

    /// Looks `key` up. A key that is held counts as a hit, yields its
    /// snapshot and becomes the most recently used; any other counts as a
    /// miss and changes nothing else.
    pub fn get(&mut self, key: &PortablePath) -> (found: Option<&FileStat>)
        ensures
            final(self).capacity() == old(self).capacity(),
            final(self).entries() == promoted(old(self).entries(), key@),
            old(self).wf() ==> final(self).wf(),
            match found {
                Some(stat) => {
                    &&& lookup(old(self).entries(), key@) == Some(stat@)
                    &&& final(self).counters().hits == bumped(old(self).counters().hits)
                    &&& final(self).counters().misses == old(self).counters().misses
                },
                None => {
                    &&& !holds(old(self).entries(), key@)
                    &&& final(self).counters().hits == old(self).counters().hits
                    &&& final(self).counters().misses == bumped(old(self).counters().misses)
                },
            },
    {
        proof {
            if old(self).wf() {
                lookup_refreshes_recency(old(self).entries(), old(self).capacity(), key@);
            }
        }
        let found = lru_get(&mut self.lru, key.components());
        if found.is_some() {
            if self.stats.hits < u64::MAX {
                self.stats.hits = self.stats.hits + 1;
            }
        } else {
            if self.stats.misses < u64::MAX {
                self.stats.misses = self.stats.misses + 1;
            }
        }
        found
    }

    /// Stores `value` under `key` as the most recently used entry. A key
    /// already held gets the new value; a new key in a full cache displaces
    /// the least recently used entry. The counters stay as they are.
    pub fn put(&mut self, key: PortablePath, value: FileStat)
        ensures
            final(self).capacity() == old(self).capacity(),
            final(self).entries() == stored(
                old(self).entries(),
                old(self).capacity(),
                key@,
                value@,
            ),
            final(self).counters() == old(self).counters(),
            old(self).wf() ==> final(self).wf(),
    {
        proof {
            if old(self).wf() {
                stored_is_found(old(self).entries(), old(self).capacity(), key@, value@);
            }
        }
        lru_put(&mut self.lru, key.into_components(), value);
    }

    /// The hit and miss counters.
    pub fn stats(&self) -> (stats: &CacheStats)
        ensures
            *stats == self.counters(),
    {
        &self.stats
    }

    /// The number of entries held.
    pub fn len(&self) -> (n: u64)
        ensures
            n == self.entries().len(),
    {
        lru_len(&self.lru) as u64
    }

    /// The keys held, from the most recently used to the least recently
    /// used, each in double quotes on a line of its own.
    pub fn dump_keys(&self) -> (text: String)
        ensures
            text@ == key_lines(self.entries()),
    {
        let ghost entries = self.entries();
        let keys = lru_keys(&self.lru);
        let mut text = String::new();
        let mut i: usize = 0;
        while i < keys.len()
            invariant
                0 <= i <= keys@.len(),
                keys@.len() == entries.len(),
                forall|j: int|
                    0 <= j < keys@.len() ==> string_views((#[trigger] keys@[j])@) == entries[j].0,
                text@ == key_lines(entries.take(i as int)),
            decreases keys@.len() - i,
        {
            proof {
                reveal_strlit("\"");
                reveal_strlit("\"\n");
                assert("\""@ =~= seq!['"']);
                assert("\"\n"@ =~= seq!['"', '\n']);
                assert(entries.take(i + 1).drop_last() =~= entries.take(i as int));
                assert(entries.take(i + 1).last() == entries[i as int]);
            }
            text.append("\"");
            text.append(join_parts(&keys[i]).as_str());
            text.append("\"\n");
            i = i + 1;
        }
        assert(entries.take(keys@.len() as int) =~= entries);
        text
    }

    /// Removes `key` and hands back the snapshot that was kept for it, if
    /// any. The counters stay as they are.
    pub fn pop(&mut self, key: &PortablePath) -> (taken: Option<FileStat>)
        ensures
            final(self).capacity() == old(self).capacity(),
            final(self).entries() == removed(old(self).entries(), key@),
            final(self).counters() == old(self).counters(),
            old(self).wf() ==> final(self).wf(),
            match taken {
                Some(stat) => lookup(old(self).entries(), key@) == Some(stat@),
                None => !holds(old(self).entries(), key@),
            },
    {
        proof {
            if old(self).wf() {
                removed_is_missing(old(self).entries(), old(self).capacity(), key@);
            }
        }
        lru_pop(&mut self.lru, key.components())
    }
}

} // verus!
