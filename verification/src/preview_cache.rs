//! The cache of rendered Sixel previews, bounded by size in bytes.
//!
//! Entries live in a `DashMap` keyed by image path. When an entry would not
//! fit, the least recently used entries are dropped first.

use vstd::prelude::*;
use dashmap::DashMap;
use crate::order::{appears, is_stable_order, key_before, law_stable_order_distinct, stable_order};
use crate::sixel::{CacheStats, PreviewEntry, MAX_CACHE_SIZE_MB};

verus! {

#[verifier::external_type_specification]
#[verifier::external_body]
#[verifier::reject_recursive_types(K)]
#[verifier::reject_recursive_types(V)]
#[verifier::reject_recursive_types(S)]
pub struct ExDashMap<K, V, S>(DashMap<K, V, S>);

/// Rendered previews keyed by image path.
pub type PreviewMap = DashMap<String, PreviewEntry>;

/// The entries a preview map holds, by path.
pub uninterp spec fn preview_entries(m: PreviewMap) -> Map<Seq<char>, PreviewEntry>;

/// Two entries hold the same values.
pub open spec fn same_entry(a: PreviewEntry, b: PreviewEntry) -> bool {
    &&& a.path@ == b.path@
    &&& a.sixel_data@ == b.sixel_data@
    &&& a.size_bytes == b.size_bytes
    &&& a.last_access == b.last_access
    &&& a.dimensions == b.dimensions
}

/// An empty map.
///
/// Trusted: calls `DashMap::new`, which creates an empty map.
#[verifier::external_body]
fn dm_new() -> (m: PreviewMap)
    ensures
        preview_entries(m).dom() == Set::<Seq<char>>::empty(),
{
    DashMap::new()
}

/// A copy of the entry for `key`, if any.
///
/// Trusted: calls `DashMap::get` and clones the value it refers to with
/// the verified `PreviewEntry::clone`; `get` gives the value stored under
/// the key, or nothing.
#[verifier::external_body]
fn dm_get(m: &PreviewMap, key: &str) -> (r: Option<PreviewEntry>)
    ensures
        r is Some <==> preview_entries(*m).contains_key(key@),
        r is Some ==> same_entry(r->0, preview_entries(*m)[key@]),
{
    m.get(key).map(|r| r.value().clone())
}

/// Store `value` under `key`, replacing what was there, and give back the
/// value that was replaced.
///
/// Trusted: calls `DashMap::insert`, documented to insert the pair, replace
/// an older value for the key and return that older value, if any.
#[verifier::external_body]
fn dm_insert(m: &mut PreviewMap, key: String, value: PreviewEntry) -> (replaced: Option<PreviewEntry>)
    ensures
        preview_entries(*final(m)) == preview_entries(*old(m)).insert(key@, value),
        replaced is Some <==> preview_entries(*old(m)).contains_key(key@),
        replaced is Some ==> replaced->0 == preview_entries(*old(m))[key@],
{
    m.insert(key, value)
}

/// Drop the entry for `key`, if any.
///
/// Trusted: calls `DashMap::remove`, documented to remove the key's entry.
#[verifier::external_body]
fn dm_remove(m: &mut PreviewMap, key: &str)
    ensures
        preview_entries(*final(m)) == preview_entries(*old(m)).remove(key@),
{
    m.remove(key);
}

/// Whether `key` has an entry.
///
/// Trusted: calls `DashMap::contains_key`.
#[verifier::external_body]
fn dm_contains(m: &PreviewMap, key: &str) -> (b: bool)
    ensures
        b == preview_entries(*m).contains_key(key@),
{
    m.contains_key(key)
}

/// The number of entries.
///
/// Trusted: calls `DashMap::len`, the number of entries.
#[verifier::external_body]
fn dm_len(m: &PreviewMap) -> (n: usize)
    ensures
        n == preview_entries(*m).dom().len(),
{
    m.len()
}

/// Drop every entry.
///
/// Trusted: calls `DashMap::clear`, which removes all entries.
#[verifier::external_body]
fn dm_clear(m: &mut PreviewMap)
    ensures
        preview_entries(*final(m)).dom() == Set::<Seq<char>>::empty(),
{
    m.clear();
}

/// `list` names each entry of `m` once, with its last use and size, in
/// some order.
pub open spec fn is_listing(m: Map<Seq<char>, PreviewEntry>, list: Seq<(String, u64, usize)>) -> bool {
    &&& forall|i: int|
        0 <= i < list.len() ==> m.contains_key(#[trigger] list[i].0@) && list[i].1
            == m[list[i].0@].last_access && list[i].2 == m[list[i].0@].size_bytes
    &&& forall|i: int, j: int| 0 <= i < j < list.len() ==> #[trigger] list[i].0@ != #[trigger] list[j].0@
    &&& forall|k: Seq<char>| m.contains_key(k) ==> exists|i: int| 0 <= i < list.len() && #[trigger] list[i].0@ == k
}

/// Each entry's path, last use and size, in the map's iteration order.
///
/// Trusted: walks `DashMap::iter` and picks the key, `last_access` and
/// `size_bytes` of each entry. Every entry is visited once; the order
/// depends on hashing and is left open.
#[verifier::external_body]
fn dm_listing(m: &PreviewMap) -> (list: Vec<(String, u64, usize)>)
    ensures
        is_listing(preview_entries(*m), list@),
{
    m.iter().map(|r| (r.key().clone(), r.value().last_access, r.value().size_bytes)).collect()
}

/// The sum of the sizes of the entries of a finite map.
pub open spec fn total_size(m: Map<Seq<char>, PreviewEntry>) -> nat
    decreases m.dom().len(),
{
    if m.dom().finite() && m.dom().len() > 0 {
        let k = m.dom().choose();
        proof {
            assert(m.dom().contains(k));
            assert(m.remove(k).dom() =~= m.dom().remove(k));
        }
        m[k].size_bytes as nat + total_size(m.remove(k))
    } else {
        0
    }
}

/// Taking any one entry out of a finite map takes its size off the total.
pub proof fn lemma_total_remove(m: Map<Seq<char>, PreviewEntry>, k: Seq<char>)
    requires
        m.dom().finite(),
        m.contains_key(k),
    ensures
        total_size(m) == m[k].size_bytes + total_size(m.remove(k)),
    decreases m.dom().len(),
{
    let c = m.dom().choose();
    assert(m.dom().contains(c));
    assert(m.remove(k).dom() =~= m.dom().remove(k));
    assert(m.remove(c).dom() =~= m.dom().remove(c));
    if c != k {
        lemma_total_remove(m.remove(c), k);
        lemma_total_remove(m.remove(k), c);
        assert(m.remove(c).remove(k) =~= m.remove(k).remove(c));
    }
}

/// The total of an empty map is zero.
pub proof fn lemma_total_empty(m: Map<Seq<char>, PreviewEntry>)
    requires
        m.dom() == Set::<Seq<char>>::empty(),
    ensures
        total_size(m) == 0,
{
    assert(m.dom().len() == 0);
}

/// Storing `v` under `k` in a finite map: the total loses the size of what
/// was under `k`, if anything, and gains the size of `v`.
pub proof fn lemma_total_insert(m: Map<Seq<char>, PreviewEntry>, k: Seq<char>, v: PreviewEntry)
    requires
        m.dom().finite(),
    ensures
        m.contains_key(k) ==> total_size(m.insert(k, v)) + m[k].size_bytes == total_size(m) + v.size_bytes,
        !m.contains_key(k) ==> total_size(m.insert(k, v)) == total_size(m) + v.size_bytes,
{
    let m2 = m.insert(k, v);
    assert(m2.dom() =~= m.dom().insert(k));
    lemma_total_remove(m2, k);
    if m.contains_key(k) {
        lemma_total_remove(m, k);
        assert(m2.remove(k) =~= m.remove(k));
    } else {
        assert(m2.remove(k) =~= m);
    }
}

/// `c - s`, stopping at zero.
pub open spec fn sat_sub(c: int, s: int) -> int {
    if c >= s {
        c - s
    } else {
        0
    }
}

/// Dropping entries of the sizes `sizes` in order from a cache of size `c`
/// until the size is at most `target`: how many are dropped and the size
/// left.
pub open spec fn evict_run(c: int, sizes: Seq<usize>, target: int) -> (int, int)
    decreases sizes.len(),
{
    if c <= target || sizes.len() == 0 {
        (0, c)
    } else {
        let r = evict_run(sat_sub(c, sizes[0] as int), sizes.drop_first(), target);
        (r.0 + 1, r.1)
    }
}

/// The last-use times of a listing.
pub open spec fn listing_accesses(list: Seq<(String, u64, usize)>) -> Seq<u64> {
    list.map_values(|e: (String, u64, usize)| e.1)
}

/// The sizes of a listing in the order `order`.
pub open spec fn ordered_sizes(list: Seq<(String, u64, usize)>, order: Seq<usize>) -> Seq<usize> {
    order.map_values(|i: usize| list[i as int].2)
}

/// The paths of the first `n` entries of a listing in the order `order`.
pub open spec fn first_paths(list: Seq<(String, u64, usize)>, order: Seq<usize>, n: int) -> Set<Seq<char>> {
    Set::new(|p: Seq<char>| exists|x: int| 0 <= x < n && #[trigger] list[order[x] as int].0@ == p)
}

/// What making room for `required` bytes gives: unchanged if the cache has
/// room; otherwise, for some listing of the entries, the least recently
/// used ones (ties in listing order) are dropped until the size is at most
/// the capacity minus `required`.
pub open spec fn spec_evicted(
    m: Map<Seq<char>, PreviewEntry>,
    size: int,
    max: int,
    required: int,
    m2: Map<Seq<char>, PreviewEntry>,
    size2: int,
) -> bool {
    if size + required <= max {
        m2 == m && size2 == size
    } else {
        exists|list: Seq<(String, u64, usize)>, order: Seq<usize>|
            #![trigger is_listing(m, list), is_stable_order(listing_accesses(list), order)]
            {
                &&& is_listing(m, list)
                &&& is_stable_order(listing_accesses(list), order)
                &&& ({
                    let r = evict_run(size, ordered_sizes(list, order), sat_sub(max, required));
                    &&& size2 == r.1
                    &&& m2 == m.remove_keys(first_paths(list, order, r.0))
                })
            }
    }
}

/// Rendered previews by path, with the total size in bytes that the cache
/// counts and its capacity.
pub struct PreviewCache {
    cache: PreviewMap,
    max_size_bytes: usize,
    current_size: usize,
}

/// The cache of previews used by the image widgets.
pub type SixelPreviewCache = PreviewCache;

impl PreviewCache {
    /// The entries, by path.
    pub closed spec fn entries(&self) -> Map<Seq<char>, PreviewEntry> {
        preview_entries(self.cache)
    }

    /// The size in bytes that the cache counts.
    pub closed spec fn size(&self) -> nat {
        self.current_size as nat
    }

    /// The capacity in bytes.
    pub closed spec fn max_size(&self) -> nat {
        self.max_size_bytes as nat
    }

    /// The counted size is the sum of the sizes of the entries, which are
    /// finitely many.
    pub open spec fn wf(&self) -> bool {
        &&& self.entries().dom().finite()
        &&& self.size() == total_size(self.entries())
    }

    /// An empty cache of `MAX_CACHE_SIZE_MB` megabytes.
    pub fn new() -> (c: PreviewCache)
        ensures
            c.wf(),
            c.entries() == Map::<Seq<char>, PreviewEntry>::empty(),
            c.size() == 0,
            c.max_size() == MAX_CACHE_SIZE_MB * 1024 * 1024,
    {
        Self::with_max_size(MAX_CACHE_SIZE_MB * 1024 * 1024)
    }

    /// An empty cache of `max_size_bytes` bytes.
    pub fn with_max_size(max_size_bytes: usize) -> (c: PreviewCache)
        ensures
            c.wf(),
            c.entries() == Map::<Seq<char>, PreviewEntry>::empty(),
            c.size() == 0,
            c.max_size() == max_size_bytes,
    {
        let c = PreviewCache { cache: dm_new(), max_size_bytes, current_size: 0 };
        assert(c.entries() =~= Map::<Seq<char>, PreviewEntry>::empty());
        proof {
            lemma_total_empty(c.entries());
        }
        c
    }

    /// The entry for `path`, marked as used at `now`: the stored entry is
    /// marked too, so that eviction sees the use. Gives a copy of the
    /// marked entry, or `None` if there is no entry for `path`.
    pub fn get(&mut self, path: &str, now: u64) -> (r: Option<PreviewEntry>)
        requires
            old(self).wf(),
        ensures
            final(self).wf(),
            old(self).entries().contains_key(path@) ==> (r matches Some(e) && same_entry(
                e,
                PreviewEntry { last_access: now, ..old(self).entries()[path@] },
            )),
            !old(self).entries().contains_key(path@) ==> r is None,
            !old(self).entries().contains_key(path@) ==> final(self).entries() == old(self).entries(),
            old(self).entries().contains_key(path@) ==> final(self).entries().dom() == old(self).entries().dom()
                && same_entry(
                final(self).entries()[path@],
                PreviewEntry { last_access: now, ..old(self).entries()[path@] },
            ) && forall|k: Seq<char>| k != path@ ==> #[trigger] final(self).entries().index(k) == old(
                self,
            ).entries().index(k),
            final(self).size() == old(self).size(),
            final(self).max_size() == old(self).max_size(),
    {
        match dm_get(&self.cache, path) {
            Some(e) => {
                let marked = PreviewEntry {
                    path: e.path,
                    sixel_data: e.sixel_data,
                    size_bytes: e.size_bytes,
                    last_access: now,
                    dimensions: e.dimensions,
                };
                let copy = marked.clone();
                let ghost m0 = self.entries();
                let ghost mk = marked;
                let _ = dm_insert(&mut self.cache, path.to_owned(), marked);
                proof {
                    lemma_total_insert(m0, path@, mk);
                    assert(self.entries().dom() =~= m0.dom());
                }
                Some(copy)
            },
            None => None,
        }
    }

    /// Whether `path` has an entry.
    pub fn contains(&self, path: &str) -> (b: bool)
        ensures
            b == self.entries().contains_key(path@),
    {
        dm_contains(&self.cache, path)
    }

    /// Drop every entry; the counted size becomes zero.
    pub fn clear(&mut self)
        ensures
            final(self).wf(),
            final(self).entries() == Map::<Seq<char>, PreviewEntry>::empty(),
            final(self).size() == 0,
            final(self).max_size() == old(self).max_size(),
    {
        dm_clear(&mut self.cache);
        self.current_size = 0;
        assert(self.entries() =~= Map::<Seq<char>, PreviewEntry>::empty());
        proof {
            lemma_total_empty(self.entries());
        }
    }

    /// The number of entries, the counted size and the capacity.
    pub fn stats(&self) -> (s: CacheStats)
        ensures
            s.entries == self.entries().dom().len(),
            s.size_bytes == self.size(),
            s.max_size_bytes == self.max_size(),
    {
        CacheStats {
            entries: dm_len(&self.cache),
            size_bytes: self.current_size,
            max_size_bytes: self.max_size_bytes,
        }
    }

    /// Make room for `required` bytes: if the counted size and `required`
    /// exceed the capacity, drop the least recently used entries until the
    /// size is at most the capacity minus `required` (see [`spec_evicted`]).
    /// Afterwards the size and `required` fit the capacity, or `required`
    /// alone exceeds it and the cache is empty.
    pub fn evict_if_needed(&mut self, required: usize)
        requires
            old(self).wf(),
            old(self).size() + required <= usize::MAX,
        ensures
            final(self).wf(),
            spec_evicted(
                old(self).entries(),
                old(self).size() as int,
                old(self).max_size() as int,
                required as int,
                final(self).entries(),
                final(self).size() as int,
            ),
            final(self).max_size() == old(self).max_size(),
            final(self).size() <= old(self).size(),
            final(self).size() <= sat_sub(final(self).max_size() as int, required as int),
    {
        if self.current_size + required <= self.max_size_bytes {
            return;
        }
        let ghost m0 = self.entries();
        let ghost c0 = self.current_size as int;
        let list = dm_listing(&self.cache);
        let mut accesses: Vec<u64> = Vec::new();
        let mut a: usize = 0;
        while a < list.len()
            invariant
                a <= list@.len(),
                accesses@ == listing_accesses(list@).take(a as int),
            decreases list@.len() - a,
        {
            accesses.push(list[a].1);
            a = a + 1;
            assert(accesses@ =~= listing_accesses(list@).take(a as int));
        }
        assert(accesses@ =~= listing_accesses(list@));
        let order = stable_order(&accesses);
        proof {
            law_stable_order_distinct(listing_accesses(list@), order@);
        }
        let ghost sizes = ordered_sizes(list@, order@);
        let target = self.max_size_bytes.saturating_sub(required);
        let mut cur = self.current_size;
        let mut k: usize = 0;
        proof {
            assert(sizes.subrange(0, sizes.len() as int) =~= sizes);
            assert(first_paths(list@, order@, 0) =~= Set::<Seq<char>>::empty());
            assert(m0.remove_keys(Set::<Seq<char>>::empty()) =~= m0);
        }
        while k < order.len() && cur > target
            invariant
                is_listing(m0, list@),
                is_stable_order(listing_accesses(list@), order@),
                forall|x: int, y: int| 0 <= x < y < order@.len() ==> order@[x] != order@[y],
                m0.dom().finite(),
                sizes == ordered_sizes(list@, order@),
                target == sat_sub(self.max_size_bytes as int, required as int),
                self.max_size_bytes == old(self).max_size_bytes,
                self.current_size == old(self).current_size,
                k <= order@.len(),
                cur <= c0,
                self.entries() == m0.remove_keys(first_paths(list@, order@, k as int)),
                self.entries().dom().finite(),
                cur == total_size(self.entries()),
                ({
                    let r = evict_run(cur as int, sizes.subrange(k as int, sizes.len() as int), target as int);
                    evict_run(c0, sizes, target as int) == (k + r.0, r.1)
                }),
            decreases order@.len() - k,
        {
            let idx = order[k];
            let size = list[idx].2;
            let ghost before = self.entries();
            let ghost key = list@[idx as int].0@;
            proof {
                assert(m0.contains_key(key));
                assert(!first_paths(list@, order@, k as int).contains(key)) by {
                    if first_paths(list@, order@, k as int).contains(key) {
                        let x = choose|x: int| 0 <= x < k && #[trigger] list@[order@[x] as int].0@ == key;
                        assert(order@[x] != order@[k as int]);
                    }
                }
                assert(before.contains_key(key));
                assert(before[key] == m0[key]);
                lemma_total_remove(before, key);
            }
            dm_remove(&mut self.cache, list[idx].0.as_str());
            proof {
                let rest = sizes.subrange(k as int, sizes.len() as int);
                assert(rest[0] == size);
                assert(rest.drop_first() =~= sizes.subrange(k + 1, sizes.len() as int));
                let s0 = first_paths(list@, order@, k as int);
                let s1 = first_paths(list@, order@, k + 1);
                assert(s1 =~= s0.insert(list@[idx as int].0@)) by {
                    assert forall|p: Seq<char>| s1.contains(p) implies s0.insert(list@[idx as int].0@).contains(p) by {
                        let x = choose|x: int| 0 <= x < k + 1 && #[trigger] list@[order@[x] as int].0@ == p;
                        if x < k {
                            assert(s0.contains(p));
                        }
                    }
                    assert forall|p: Seq<char>| s0.insert(list@[idx as int].0@).contains(p) implies s1.contains(p) by {
                        if p == list@[idx as int].0@ {
                            assert(list@[order@[k as int] as int].0@ == p);
                        } else {
                            let x = choose|x: int| 0 <= x < k && #[trigger] list@[order@[x] as int].0@ == p;
                            assert(list@[order@[x] as int].0@ == p);
                        }
                    }
                }
                assert(m0.remove_keys(s0).remove(list@[idx as int].0@) =~= m0.remove_keys(s1));
            }
            cur = cur - size;
            k = k + 1;
        }
        proof {
            let rest = sizes.subrange(k as int, sizes.len() as int);
            assert(evict_run(cur as int, rest, target as int) == (0int, cur as int));
            if cur > target {
                assert(k == order@.len());
                assert(self.entries().dom() =~= Set::<Seq<char>>::empty()) by {
                    assert forall|p: Seq<char>| !self.entries().dom().contains(p) by {
                        if m0.contains_key(p) {
                            let i = choose|i: int| 0 <= i < list@.len() && #[trigger] list@[i].0@ == p;
                            assert(appears(order@, i));
                            let b = choose|b: int| 0 <= b < order@.len() && order@[b] == i;
                            assert(list@[order@[b] as int].0@ == p);
                            assert(first_paths(list@, order@, k as int).contains(p));
                        }
                    }
                }
                lemma_total_empty(self.entries());
            }
        }
        self.current_size = cur;
    }

    /// Cache a rendered preview: make room for its size, store it under its
    /// path in place of any older entry for that path, and count its size in
    /// place of the older entry's. An entry no larger than the capacity
    /// leaves the counted size within the capacity.
    pub fn insert(&mut self, entry: PreviewEntry)
        requires
            old(self).wf(),
            old(self).size() + entry.size_bytes <= usize::MAX,
        ensures
            final(self).wf(),
            exists|m: Map<Seq<char>, PreviewEntry>, s: int|
                #![trigger spec_evicted(old(self).entries(), old(self).size() as int, old(self).max_size() as int, entry.size_bytes as int, m, s)]
                spec_evicted(
                    old(self).entries(),
                    old(self).size() as int,
                    old(self).max_size() as int,
                    entry.size_bytes as int,
                    m,
                    s,
                ) && final(self).entries() == m.insert(entry.path@, entry),
            final(self).max_size() == old(self).max_size(),
            entry.size_bytes <= final(self).max_size() ==> final(self).size() <= final(self).max_size(),
    {
        let size = entry.size_bytes;
        self.evict_if_needed(size);
        let ghost m = self.entries();
        let ghost s = self.current_size as int;
        let ghost e = entry;
        let path = entry.path.clone();
        let replaced = dm_insert(&mut self.cache, path, entry);
        proof {
            lemma_total_insert(m, e.path@, e);
            if m.contains_key(e.path@) {
                lemma_total_remove(m, e.path@);
            }
        }
        let old_size: usize = match replaced {
            Some(r) => r.size_bytes,
            None => 0,
        };
        self.current_size = self.current_size - old_size + size;
        proof {
            assert(self.entries().dom() =~= m.dom().insert(e.path@));
        }
    }

    /// Mark the entry for `path` as used at `now`, if there is one; the
    /// result tells whether there was.
    pub fn touch(&mut self, path: &str, now: u64) -> (hit: bool)
        requires
            old(self).wf(),
        ensures
            final(self).wf(),
            hit == old(self).entries().contains_key(path@),
            !hit ==> final(self).entries() == old(self).entries(),
            hit ==> final(self).entries().dom() == old(self).entries().dom() && same_entry(
                final(self).entries()[path@],
                PreviewEntry { last_access: now, ..old(self).entries()[path@] },
            ) && forall|k: Seq<char>| k != path@ ==> #[trigger] final(self).entries().index(k) == old(self).entries().index(k),
            final(self).size() == old(self).size(),
            final(self).max_size() == old(self).max_size(),
    {
        self.get(path, now).is_some()
    }
}


/// Eviction stops as soon as the size is within the target, and only runs
/// out of entries short of it: afterwards the size is at most the target or
/// every entry was dropped; it never grows.
pub proof fn law_eviction_reaches_target(c: int, sizes: Seq<usize>, target: int)
    requires
        c >= 0,
    ensures
        evict_run(c, sizes, target).1 <= target || evict_run(c, sizes, target).0 == sizes.len(),
        evict_run(c, sizes, target).1 <= c,
        0 <= evict_run(c, sizes, target).0 <= sizes.len(),
    decreases sizes.len(),
{
    if c <= target || sizes.len() == 0 {
    } else {
        law_eviction_reaches_target(sat_sub(c, sizes[0] as int), sizes.drop_first(), target);
    }
}


/// Making room drops least recently used entries first: every entry that
/// is dropped was last used no later than every entry that stays, and the
/// entries that stay are unchanged.
pub proof fn law_evicts_least_recent(
    m: Map<Seq<char>, PreviewEntry>,
    size: int,
    max: int,
    required: int,
    m2: Map<Seq<char>, PreviewEntry>,
    size2: int,
)
    requires
        spec_evicted(m, size, max, required, m2, size2),
    ensures
        forall|q: Seq<char>| #[trigger] m2.contains_key(q) ==> m.contains_key(q) && m2[q] == m[q],
        forall|p: Seq<char>, q: Seq<char>|
            m.contains_key(p) && !m2.contains_key(p) && #[trigger] m2.contains_key(q) ==> #[trigger] m[p].last_access
                <= m[q].last_access,
{
    if size + required <= max {
    } else {
        let (list, order) = choose|list: Seq<(String, u64, usize)>, order: Seq<usize>|
            #![trigger is_listing(m, list), is_stable_order(listing_accesses(list), order)]
            {
                &&& is_listing(m, list)
                &&& is_stable_order(listing_accesses(list), order)
                &&& ({
                    let r = evict_run(size, ordered_sizes(list, order), sat_sub(max, required));
                    &&& size2 == r.1
                    &&& m2 == m.remove_keys(first_paths(list, order, r.0))
                })
            };
        let j = evict_run(size, ordered_sizes(list, order), sat_sub(max, required)).0;
        let f = first_paths(list, order, j);
        assert forall|p: Seq<char>, q: Seq<char>|
            m.contains_key(p) && !m2.contains_key(p) && #[trigger] m2.contains_key(q) implies #[trigger] m[p].last_access
                <= m[q].last_access by {
            assert(f.contains(p));
            let x = choose|x: int| 0 <= x < j && #[trigger] list[order[x] as int].0@ == p;
            let i = choose|i: int| 0 <= i < list.len() && #[trigger] list[i].0@ == q;
            assert(appears(order, i));
            let b = choose|b: int| 0 <= b < order.len() && order[b] == i;
            if b < j {
                assert(list[order[b] as int].0@ == q);
                assert(f.contains(q));
            }
            assert(x < b);
            assert(key_before(listing_accesses(list), order[x] as int, order[b] as int));
            assert(listing_accesses(list)[order[x] as int] == list[order[x] as int].1);
            assert(listing_accesses(list)[order[b] as int] == list[order[b] as int].1);
        }
    }
}

} // verus!
