//! A least-recently-used cache of loaded gallery images.

use vstd::prelude::*;

verus! {

/// Images kept by default.
pub const MAX_CACHE_SIZE: usize = 100;

/// Age after which an image not used is dropped, in milliseconds (five
/// minutes).
pub const MAX_CACHE_AGE_MS: u64 = 300_000;

/// A cached image: its path, the handle of the loaded asset, and when it
/// was last used and loaded, in milliseconds of a monotonic clock.
#[derive(Debug, Clone)]
pub struct CacheEntry {
    pub handle: u64,
    pub path: String,
    pub last_access: u64,
    pub load_time: u64,
}

/// A cache entry with its path as characters.
pub struct EntryView {
    pub path: Seq<char>,
    pub handle: u64,
    pub last_access: u64,
    pub load_time: u64,
}

impl CacheEntry {
    pub open spec fn view(&self) -> EntryView {
        EntryView {
            path: self.path@,
            handle: self.handle,
            last_access: self.last_access,
            load_time: self.load_time,
        }
    }
}

/// No path occurs twice.
pub open spec fn distinct_paths(s: Seq<EntryView>) -> bool {
    forall|i: int, j: int| 0 <= i < j < s.len() ==> #[trigger] s[i].path != #[trigger] s[j].path
}

/// Entry `i` has path `p`.
pub open spec fn at_path(s: Seq<EntryView>, p: Seq<char>, i: int) -> bool {
    0 <= i < s.len() && s[i].path == p
}

/// Some entry has path `p`.
pub open spec fn has_path(s: Seq<EntryView>, p: Seq<char>) -> bool {
    exists|i: int| #[trigger] at_path(s, p, i)
}

/// `s` without the entry for `p`, if there is one.
pub open spec fn without_path(s: Seq<EntryView>, p: Seq<char>) -> Seq<EntryView> {
    if has_path(s, p) {
        s.remove(choose|i: int| at_path(s, p, i))
    } else {
        s
    }
}

/// The first `max` entries (all of them if there are fewer).
pub open spec fn keep_first(s: Seq<EntryView>, max: int) -> Seq<EntryView> {
    if s.len() > max {
        s.take(max)
    } else {
        s
    }
}

/// Milliseconds from `since` to `now` (zero if `now` is earlier).
pub open spec fn age(now: u64, since: u64) -> int {
    if now >= since {
        now - since
    } else {
        0
    }
}

/// The entries, in order, used within `max_age` of `now`.
pub open spec fn fresh_entries(s: Seq<EntryView>, now: u64, max_age: u64) -> Seq<EntryView>
    decreases s.len(),
{
    if s.len() == 0 {
        s
    } else {
        let rest = fresh_entries(s.drop_last(), now, max_age);
        if age(now, s.last().last_access) > max_age {
            rest
        } else {
            rest.push(s.last())
        }
    }
}

/// The views of entries.
pub open spec fn entry_views(s: Seq<CacheEntry>) -> Seq<EntryView> {
    s.map_values(|e: CacheEntry| e.view())
}

/// Figures of the image cache.
#[derive(Debug, Clone, Copy, PartialEq, Eq, Structural)]
pub struct CacheStats {
    pub entries: usize,
    pub max_size: usize,
}

/// Loaded images, most recently used first, at most `max_size` of them.
#[derive(Debug, Clone)]
pub struct ImageCache {
    entries: Vec<CacheEntry>,
    max_size: usize,
}

impl ImageCache {
    /// The entries, most recently used first.
    pub closed spec fn entries_view(&self) -> Seq<EntryView> {
        entry_views(self.entries@)
    }

    /// The most images kept.
    pub closed spec fn capacity(&self) -> nat {
        self.max_size as nat
    }

    /// Paths are distinct and there are at most `max_size` entries.
    pub closed spec fn wf(&self) -> bool {
        &&& distinct_paths(entry_views(self.entries@))
        &&& self.entries@.len() <= self.max_size
    }

    /// An empty cache for at most `max_size` images.
    pub fn new(max_size: usize) -> (c: ImageCache)
        ensures
            c.wf(),
            c.entries_view().len() == 0,
            c.capacity() == max_size,
    {
        ImageCache { entries: Vec::new(), max_size }
    }

    fn position(&self, path: &str) -> (r: Option<usize>)
        requires
            self.wf(),
        ensures
            r matches Some(i) ==> at_path(self.entries_view(), path@, i as int),
            r is None ==> !has_path(self.entries_view(), path@),
    {
        let key: String = path.to_owned();
        let ghost v = self.entries_view();
        let mut i: usize = 0;
        while i < self.entries.len()
            invariant
                key@ == path@,
                v == entry_views(self.entries@),
                i <= self.entries@.len(),
                forall|j: int| 0 <= j < i ==> #[trigger] v[j].path != path@,
            decreases self.entries@.len() - i,
        {
            if self.entries[i].path == key {
                assert(at_path(v, path@, i as int));
                return Some(i);
            }
            assert(v[i as int].path != path@);
            i = i + 1;
        }
        assert forall|j: int| !at_path(v, path@, j) by {
            if 0 <= j < v.len() {
                assert(v[j].path != path@);
            }
        }
        None
    }

    proof fn lemma_without(s: Seq<EntryView>, p: Seq<char>, i: int)
        requires
            distinct_paths(s),
            at_path(s, p, i),
        ensures
            without_path(s, p) == s.remove(i),
    {
        let k = choose|k: int| at_path(s, p, k);
        assert(at_path(s, p, k));
        if k != i {
            if k < i {
                assert(s[k].path != s[i].path);
            } else {
                assert(s[i].path != s[k].path);
            }
        }
    }

    proof fn lemma_without_distinct(s: Seq<EntryView>, p: Seq<char>)
        requires
            distinct_paths(s),
        ensures
            distinct_paths(without_path(s, p)),
            !has_path(without_path(s, p), p),
    {
        if has_path(s, p) {
            let k = choose|k: int| at_path(s, p, k);
            let t = s.remove(k);
            assert forall|a: int, b: int| 0 <= a < b < t.len() implies #[trigger] t[a].path != #[trigger] t[b].path by {
                let a0 = if a < k { a } else { a + 1 };
                let b0 = if b < k { b } else { b + 1 };
                assert(t[a] == s[a0] && t[b] == s[b0]);
                assert(s[a0].path != s[b0].path);
            }
            assert forall|j: int| !at_path(t, p, j) by {
                if 0 <= j < t.len() {
                    let j0 = if j < k { j } else { j + 1 };
                    assert(t[j] == s[j0]);
                    if j0 < k {
                        assert(s[j0].path != s[k].path);
                    } else {
                        assert(s[k].path != s[j0].path);
                    }
                }
            }
        }
    }

    proof fn lemma_prepend_distinct(s: Seq<EntryView>, e: EntryView)
        requires
            distinct_paths(s),
            !has_path(s, e.path),
        ensures
            distinct_paths(seq![e] + s),
    {
        let t = seq![e] + s;
        assert forall|a: int, b: int| 0 <= a < b < t.len() implies #[trigger] t[a].path != #[trigger] t[b].path by {
            assert(t[b] == s[b - 1]);
            if a == 0 {
                assert(!at_path(s, e.path, b - 1));
            } else {
                assert(t[a] == s[a - 1]);
            }
        }
    }

    /// Cache `handle` for `path`, used at `now`, as the most recent entry;
    /// an older entry for the path is replaced; the least recently used
    /// entries beyond `max_size` are dropped.
    pub fn insert(&mut self, path: String, handle: u64, now: u64)
        requires
            old(self).wf(),
        ensures
            final(self).wf(),
            final(self).capacity() == old(self).capacity(),
            final(self).entries_view() == keep_first(
                seq![EntryView { path: path@, handle, last_access: now, load_time: now }]
                    + without_path(old(self).entries_view(), path@),
                old(self).capacity() as int,
            ),
    {
        let ghost v0 = self.entries_view();
        match self.position(path.as_str()) {
            Some(i) => {
                self.entries.remove(i);
                proof {
                    Self::lemma_without(v0, path@, i as int);
                    assert(entry_views(self.entries@) =~= v0.remove(i as int));
                }
            },
            None => {},
        }
        let ghost v1 = self.entries_view();
        assert(v1 == without_path(v0, path@));
        let entry = CacheEntry { handle, path, last_access: now, load_time: now };
        let ghost e = entry.view();
        self.entries.insert(0, entry);
        proof {
            assert(entry_views(self.entries@) =~= seq![e] + v1);
            Self::lemma_without_distinct(v0, path@);
            Self::lemma_prepend_distinct(v1, e);
        }
        let ghost v2 = self.entries_view();
        while self.entries.len() > self.max_size
            invariant
                distinct_paths(entry_views(self.entries@)),
                self.max_size == old(self).max_size,
                self.entries@.len() < v2.len() ==> self.entries@.len() >= self.max_size,
                self.entries@.len() <= v2.len(),
                entry_views(self.entries@) == v2.take(self.entries@.len() as int),
            decreases self.entries@.len(),
        {
            let ghost before = entry_views(self.entries@);
            self.entries.pop();
            assert(entry_views(self.entries@) =~= v2.take(self.entries@.len() as int));
            assert(distinct_paths(entry_views(self.entries@))) by {
                assert forall|a: int, b: int| 0 <= a < b < self.entries@.len() implies #[trigger] entry_views(
                    self.entries@,
                )[a].path != #[trigger] entry_views(self.entries@)[b].path by {
                    assert(entry_views(self.entries@)[a] == before[a]);
                    assert(entry_views(self.entries@)[b] == before[b]);
                }
            }
        }
        assert(entry_views(self.entries@) =~= keep_first(v2, self.max_size as int));
    }

    /// Look up `path` at time `now`: a hit marks the entry used at `now`,
    /// makes it the most recent, and gives its handle; a miss changes
    /// nothing.
    pub fn get(&mut self, path: &str, now: u64) -> (r: Option<u64>)
        requires
            old(self).wf(),
        ensures
            final(self).wf(),
            final(self).capacity() == old(self).capacity(),
            !has_path(old(self).entries_view(), path@) ==> r is None && final(self).entries_view()
                == old(self).entries_view(),
            forall|i: int|
                #![trigger at_path(old(self).entries_view(), path@, i)]
                at_path(old(self).entries_view(), path@, i) ==> r == Some(
                    old(self).entries_view()[i].handle,
                ) && final(self).entries_view() == seq![
                    EntryView { last_access: now, ..old(self).entries_view()[i] },
                ] + old(self).entries_view().remove(i),
    {
        let ghost v0 = self.entries_view();
        match self.position(path) {
            Some(i) => {
                let e = self.entries.remove(i);
                let handle = e.handle;
                let entry = CacheEntry { handle, path: e.path, last_access: now, load_time: e.load_time };
                self.entries.insert(0, entry);
                proof {
                    let w = entry_views(self.entries@);
                    assert(w =~= seq![EntryView { last_access: now, ..v0[i as int] }] + v0.remove(i as int));
                    assert forall|a: int, b: int| 0 <= a < b < w.len() implies #[trigger] w[a].path != #[trigger] w[b].path by {
                        let a0 = if a == 0 { i as int } else if a - 1 < i { a - 1 } else { a };
                        let b0 = if b - 1 < i { b - 1 } else { b };
                        assert(w[a].path == v0[a0].path);
                        assert(w[b].path == v0[b0].path);
                        assert(a0 != b0);
                        if a0 < b0 {
                            assert(v0[a0].path != v0[b0].path);
                        } else {
                            assert(v0[b0].path != v0[a0].path);
                        }
                    }
                    assert forall|k: int| #![trigger at_path(v0, path@, k)] at_path(v0, path@, k) implies k == i by {
                        if k < i {
                            assert(v0[k].path != v0[i as int].path);
                        } else if k > i {
                            assert(v0[i as int].path != v0[k].path);
                        }
                    }
                }
                Some(handle)
            },
            None => None,
        }
    }

    /// Whether `path` is cached.
    pub fn contains(&self, path: &str) -> (b: bool)
        requires
            self.wf(),
        ensures
            b == has_path(self.entries_view(), path@),
    {
        self.position(path).is_some()
    }

    /// Number of cached images.
    pub fn len(&self) -> (n: usize)
        ensures
            n == self.entries_view().len(),
    {
        self.entries.len()
    }

    /// Whether no image is cached.
    pub fn is_empty(&self) -> (b: bool)
        ensures
            b == (self.entries_view().len() == 0),
    {
        self.entries.len() == 0
    }

    /// Drop the entries not used within `MAX_CACHE_AGE_MS` of `now`; the
    /// others keep their order.
    pub fn evict_old(&mut self, now: u64)
        requires
            old(self).wf(),
        ensures
            final(self).wf(),
            final(self).capacity() == old(self).capacity(),
            final(self).entries_view() == fresh_entries(old(self).entries_view(), now, MAX_CACHE_AGE_MS),
            forall|e: EntryView| #[trigger] final(self).entries_view().contains(e) <==> (old(self).entries_view().contains(e)
                && (now < e.last_access || now - e.last_access <= MAX_CACHE_AGE_MS)),
    {
        proof {
            law_fresh_entries_by_last_use(self.entries_view(), now, MAX_CACHE_AGE_MS);
        }
        let ghost v0 = self.entries_view();
        let mut kept: Vec<CacheEntry> = Vec::new();
        let mut i: usize = 0;
        while i < self.entries.len()
            invariant
                *self == *old(self),
                v0 == entry_views(self.entries@),
                i <= self.entries@.len(),
                entry_views(kept@) == fresh_entries(v0.take(i as int), now, MAX_CACHE_AGE_MS),
                kept@.len() <= i,
                forall|a: int| 0 <= a < kept@.len() ==> exists|b: int| 0 <= b < i && #[trigger] entry_views(kept@)[a] == v0[b],
                forall|a: int, b: int| 0 <= a < b < kept@.len() ==> exists|x: int, y: int|
                    0 <= x < y < i && #[trigger] entry_views(kept@)[a] == v0[x] && #[trigger] entry_views(kept@)[b] == v0[y],
            decreases self.entries@.len() - i,
        {
            proof {
                assert(v0.take(i + 1).drop_last() =~= v0.take(i as int));
                assert(v0.take(i + 1).last() == v0[i as int]);
            }
            let e = &self.entries[i];
            let old_enough = now >= e.last_access && now - e.last_access > MAX_CACHE_AGE_MS;
            if !old_enough {
                let ghost before = kept@;
                kept.push(CacheEntry {
                    handle: e.handle,
                    path: e.path.clone(),
                    last_access: e.last_access,
                    load_time: e.load_time,
                });
                proof {
                    assert(entry_views(kept@) =~= entry_views(before).push(v0[i as int]));
                    assert forall|a: int| 0 <= a < kept@.len() implies exists|b: int| 0 <= b < i + 1 && #[trigger] entry_views(kept@)[a] == v0[b] by {
                        if a < before.len() {
                            assert(entry_views(kept@)[a] == entry_views(before)[a]);
                        } else {
                            assert(entry_views(kept@)[a] == v0[i as int]);
                        }
                    }
                    assert forall|a: int, b: int| 0 <= a < b < kept@.len() implies exists|x: int, y: int|
                        0 <= x < y < i + 1 && #[trigger] entry_views(kept@)[a] == v0[x] && #[trigger] entry_views(kept@)[b] == v0[y] by {
                        if b < before.len() {
                            assert(entry_views(kept@)[a] == entry_views(before)[a]);
                            assert(entry_views(kept@)[b] == entry_views(before)[b]);
                        } else {
                            assert(entry_views(kept@)[a] == entry_views(before)[a]);
                            let x = choose|x: int| 0 <= x < i && entry_views(before)[a] == v0[x];
                            assert(entry_views(kept@)[b] == v0[i as int]);
                            assert(entry_views(kept@)[a] == v0[x] && entry_views(kept@)[b] == v0[i as int]);
                        }
                    }
                }
            }
            i = i + 1;
        }
        proof {
            assert(v0.take(v0.len() as int) =~= v0);
            assert forall|a: int, b: int| 0 <= a < b < kept@.len() implies #[trigger] entry_views(kept@)[a].path
                != #[trigger] entry_views(kept@)[b].path by {
                let (x, y) = choose|x: int, y: int| 0 <= x < y < i && entry_views(kept@)[a] == v0[x] && entry_views(kept@)[b] == v0[y];
                assert(v0[x].path != v0[y].path);
            }
        }
        self.entries = kept;
    }

    /// Drop every entry.
    pub fn clear(&mut self)
        ensures
            final(self).wf(),
            final(self).capacity() == old(self).capacity(),
            final(self).entries_view().len() == 0,
    {
        self.entries = Vec::new();
    }

    /// The number of entries and the capacity.
    pub fn stats(&self) -> (s: CacheStats)
        ensures
            s.entries == self.entries_view().len(),
            s.max_size == self.capacity(),
    {
        CacheStats { entries: self.entries.len(), max_size: self.max_size }
    }
}

impl Default for ImageCache {
    fn default() -> (c: ImageCache)
        ensures
            c.wf(),
            c.entries_view().len() == 0,
            c.capacity() == MAX_CACHE_SIZE,
    {
        ImageCache::new(MAX_CACHE_SIZE)
    }
}

/// The cache never holds more images than its capacity, and never two
/// entries for one path.
pub proof fn law_cache_bounded(c: &ImageCache)
    requires
        c.wf(),
    ensures
        c.entries_view().len() <= c.capacity(),
        distinct_paths(c.entries_view()),
{
}

/// Inserting into a cache without repeated paths and with room for at
/// least one image keeps paths distinct; the inserted path is found only
/// at the front, so a lookup gives the inserted handle; and of the other
/// entries, in their order from most to least recently used, exactly the
/// first `cap - 1` stay: the ones dropped are the least recently used.
pub proof fn law_insert_evicts_least_recent(s: Seq<EntryView>, e: EntryView, cap: int)
    requires
        distinct_paths(s),
        cap > 0,
    ensures
        ({
            let w = without_path(s, e.path);
            let r = keep_first(seq![e] + w, cap);
            &&& distinct_paths(r)
            &&& at_path(r, e.path, 0)
            &&& r[0].handle == e.handle
            &&& forall|i: int| #[trigger] at_path(r, e.path, i) ==> i == 0
            &&& forall|j: int| 0 <= j < w.len() ==> (has_path(r, #[trigger] w[j].path) <==> j < cap - 1)
        }),
{
    let w = without_path(s, e.path);
    let t = seq![e] + w;
    let r = keep_first(t, cap);
    ImageCache::lemma_without_distinct(s, e.path);
    ImageCache::lemma_prepend_distinct(w, e);
    assert(distinct_paths(r)) by {
        assert forall|a: int, b: int| 0 <= a < b < r.len() implies #[trigger] r[a].path != #[trigger] r[b].path by {
            assert(r[a] == t[a] && r[b] == t[b]);
        }
    }
    assert(r[0] == e);
    assert(at_path(r, e.path, 0));
    assert forall|i: int| #[trigger] at_path(r, e.path, i) implies i == 0 by {
        if i != 0 {
            assert(r[0].path != r[i].path);
        }
    }
    assert forall|j: int| 0 <= j < w.len() implies (has_path(r, #[trigger] w[j].path) <==> j < cap - 1) by {
        if j < cap - 1 {
            assert(r[j + 1] == w[j]);
            assert(at_path(r, w[j].path, j + 1));
        } else {
            assert(r.len() <= cap);
            if has_path(r, w[j].path) {
                let i = choose|i: int| at_path(r, w[j].path, i);
                if i == 0 {
                    assert(at_path(w, e.path, j));
                } else {
                    assert(r[i] == w[i - 1]);
                    assert(w[i - 1].path != w[j].path);
                }
            }
        }
    }
}


/// Dropping old entries keeps exactly the entries last used at most
/// `max_age` before `now`, whenever they were loaded.
pub proof fn law_fresh_entries_by_last_use(s: Seq<EntryView>, now: u64, max_age: u64)
    ensures
        forall|e: EntryView| #[trigger] fresh_entries(s, now, max_age).contains(e) <==> (s.contains(e) && (now
            < e.last_access || now - e.last_access <= max_age)),
        fresh_entries(s, now, max_age).len() <= s.len(),
    decreases s.len(),
{
    if s.len() > 0 {
        let t = s.drop_last();
        law_fresh_entries_by_last_use(t, now, max_age);
        assert forall|e: EntryView| #[trigger] fresh_entries(s, now, max_age).contains(e) <==> (s.contains(e)
            && (now < e.last_access || now - e.last_access <= max_age)) by {
            let rest = fresh_entries(t, now, max_age);
            if s.contains(e) {
                let k = choose|k: int| 0 <= k < s.len() && s[k] == e;
                if k < s.len() - 1 {
                    assert(t[k] == e);
                    assert(t.contains(e));
                }
            }
            if t.contains(e) {
                let k = choose|k: int| 0 <= k < t.len() && t[k] == e;
                assert(s[k] == e);
            }
            if age(now, s.last().last_access) <= max_age {
                assert(rest.push(s.last())[rest.len() as int] == s.last());
                if rest.push(s.last()).contains(e) {
                    let k = choose|k: int| 0 <= k < rest.len() + 1 && rest.push(s.last())[k] == e;
                    if k < rest.len() {
                        assert(rest[k] == e);
                    }
                }
                if rest.contains(e) {
                    let k = choose|k: int| 0 <= k < rest.len() && rest[k] == e;
                    assert(rest.push(s.last())[k] == e);
                }
            }
        }
    }
}

/// An image looked up at time `t` survives dropping old entries at any
/// `now` no more than `MAX_CACHE_AGE_MS` after `t`, however long ago it
/// was loaded.
pub proof fn law_recent_use_survives_eviction(s: Seq<EntryView>, i: int, t: u64, now: u64)
    requires
        0 <= i < s.len(),
        t <= now,
        now - t <= MAX_CACHE_AGE_MS,
    ensures
        has_path(
            fresh_entries(seq![EntryView { last_access: t, ..s[i] }] + s.remove(i), now, MAX_CACHE_AGE_MS),
            s[i].path,
        ),
{
    let e = EntryView { last_access: t, ..s[i] };
    let after_get = seq![e] + s.remove(i);
    law_fresh_entries_by_last_use(after_get, now, MAX_CACHE_AGE_MS);
    assert(after_get[0] == e);
    assert(after_get.contains(e));
    let f = fresh_entries(after_get, now, MAX_CACHE_AGE_MS);
    assert(f.contains(e));
    let k = choose|k: int| 0 <= k < f.len() && f[k] == e;
    assert(at_path(f, s[i].path, k));
}

/// After an insertion into a cache with room for at least one image, the
/// inserted image is the most recently used entry, and the cache holds at
/// most its capacity.
pub proof fn law_insert_most_recent(s: Seq<EntryView>, e: EntryView, cap: int)
    requires
        cap > 0,
    ensures
        keep_first(seq![e] + without_path(s, e.path), cap)[0] == e,
        keep_first(seq![e] + without_path(s, e.path), cap).len() <= cap,
{
}

/// A cache hit makes the entry the most recent one and keeps the others in
/// their order behind it.
pub proof fn law_hit_moves_to_front(s: Seq<EntryView>, i: int, now: u64)
    requires
        0 <= i < s.len(),
    ensures
        (seq![EntryView { last_access: now, ..s[i] }] + s.remove(i))[0].path == s[i].path,
        (seq![EntryView { last_access: now, ..s[i] }] + s.remove(i)).len() == s.len(),
{
}

} // verus!
